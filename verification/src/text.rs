//! Text handling shared by the whole pipeline: escaping of free text before it
//! is placed into markup, decimal numerals, prefix tests, and the order of
//! strings.

use vstd::prelude::*;
use vstd::string::*;
use vstd::std_specs::iter::IteratorSpec;

verus! {

/// The markup that stands for one character of free text.
pub open spec fn escaped_char(c: char) -> Seq<char> {
    if c == '&' {
        "&amp;"@
    } else if c == '<' {
        "&lt;"@
    } else if c == '>' {
        "&gt;"@
    } else if c == '"' {
        "&quot;"@
    } else if c == '\'' {
        "&#39;"@
    } else {
        seq![c]
    }
}

/// The escaped form of a whole text: each character replaced by its markup, in order.
pub open spec fn escaped(text: Seq<char>) -> Seq<char>
    decreases text.len(),
{
    if text.len() == 0 {
        Seq::<char>::empty()
    } else {
        escaped(text.drop_last()) + escaped_char(text.last())
    }
}

/// The characters that open or close markup or an attribute value.
pub open spec fn is_markup_char(c: char) -> bool {
    c == '<' || c == '>' || c == '"' || c == '\''
}

/// The markup of one character holds no character that opens or closes
/// markup.
pub proof fn lemma_escaped_char_is_inert(c: char)
    ensures
        forall|i: int|
            0 <= i < escaped_char(c).len() ==> !is_markup_char(#[trigger] escaped_char(c)[i]),
{
    reveal_strlit("&amp;");
    reveal_strlit("&lt;");
    reveal_strlit("&gt;");
    reveal_strlit("&quot;");
    reveal_strlit("&#39;");
}

/// Escaped text holds none of the characters `<`, `>`, `"` and `'`, whatever
/// the text was: placed into markup it can neither open nor close an element
/// or an attribute value.
pub proof fn law_escaped_is_inert(text: Seq<char>)
    ensures
        forall|i: int| 0 <= i < escaped(text).len() ==> !is_markup_char(#[trigger] escaped(text)[i]),
    decreases text.len(),
{
    if text.len() > 0 {
        law_escaped_is_inert(text.drop_last());
        lemma_escaped_char_is_inert(text.last());
        let front = escaped(text.drop_last());
        let back = escaped_char(text.last());
        assert forall|i: int| 0 <= i < escaped(text).len() implies !is_markup_char(
            #[trigger] escaped(text)[i],
        ) by {
            if i < front.len() {
                assert(escaped(text)[i] == front[i]);
            } else {
                assert(escaped(text)[i] == back[i - front.len()]);
            }
        }
    }
}

/// Whether one of the five character references stands in a text at a
/// place.
pub open spec fn reference_at(text: Seq<char>, place: int) -> bool {
    let rest = text.skip(place);
    "&amp;"@.is_prefix_of(rest) || "&lt;"@.is_prefix_of(rest) || "&gt;"@.is_prefix_of(rest)
        || "&quot;"@.is_prefix_of(rest) || "&#39;"@.is_prefix_of(rest)
}

/// In escaped text every `&` begins a character reference: free text cannot
/// bring in a reference of its own making, nor a bare `&`.
pub proof fn law_escaped_ampersands_begin_references(text: Seq<char>)
    ensures
        forall|i: int|
            0 <= i < escaped(text).len() && escaped(text)[i] == '&' ==> #[trigger] reference_at(
                escaped(text),
                i,
            ),
    decreases text.len(),
{
    if text.len() > 0 {
        law_escaped_ampersands_begin_references(text.drop_last());
        reveal_strlit("&amp;");
        reveal_strlit("&lt;");
        reveal_strlit("&gt;");
        reveal_strlit("&quot;");
        reveal_strlit("&#39;");
        let front = escaped(text.drop_last());
        let back = escaped_char(text.last());
        let whole = escaped(text);
        assert forall|i: int| 0 <= i < whole.len() && whole[i] == '&' implies #[trigger] reference_at(
            whole,
            i,
        ) by {
            if i < front.len() {
                assert(front[i] == '&');
                assert(reference_at(front, i));
                assert(front.skip(i).is_prefix_of(whole.skip(i)));
            } else {
                assert(whole[i] == back[i - front.len()]);
                assert(i == front.len());
                assert(whole.skip(i) =~= back);
            }
        }
    }
}

/// `String::push` of the standard library: the character is added at the end
/// and nothing else changes.
#[verifier::external_body]
fn push_char(text: &mut String, c: char)
    ensures
        final(text)@ == old(text)@.push(c),
{
    text.push(c)
}

/// Escapes free text for use inside markup, in element content and in
/// double-quoted attribute values alike.
pub fn escape_html(text: &str) -> (out: String)
    ensures
        out@ == escaped(text@),
{
    let mut out = String::new();
    for c in it: text.chars()
        invariant
            it.seq() == text@,
            out@ == escaped(text@.take(it.index() as int)),
    {
        assert(text@.take(it.index() + 1).drop_last() == text@.take(it.index() as int));
        if c == '&' {
            out.append("&amp;");
        } else if c == '<' {
            out.append("&lt;");
        } else if c == '>' {
            out.append("&gt;");
        } else if c == '"' {
            out.append("&quot;");
        } else if c == '\'' {
            out.append("&#39;");
        } else {
            push_char(&mut out, c);
        }
    }
    assert(text@.take(text@.len() as int) == text@);
    out
}

/// The character that writes one decimal digit.
pub open spec fn digit_char(d: nat) -> char {
    if d == 0 {
        '0'
    } else if d == 1 {
        '1'
    } else if d == 2 {
        '2'
    } else if d == 3 {
        '3'
    } else if d == 4 {
        '4'
    } else if d == 5 {
        '5'
    } else if d == 6 {
        '6'
    } else if d == 7 {
        '7'
    } else if d == 8 {
        '8'
    } else {
        '9'
    }
}

/// The decimal numeral of a natural number, without sign or leading zeros.
pub open spec fn decimal(n: nat) -> Seq<char>
    decreases n,
{
    if n < 10 {
        seq![digit_char(n)]
    } else {
        decimal(n / 10).push(digit_char(n % 10))
    }
}

/// Whether a character is one of the ten digits.
pub open spec fn is_digit(c: char) -> bool {
    c == '0' || c == '1' || c == '2' || c == '3' || c == '4' || c == '5' || c == '6' || c == '7'
        || c == '8' || c == '9'
}

/// A decimal numeral is not empty and holds digits only.
pub proof fn lemma_decimal_is_digits(n: nat)
    ensures
        decimal(n).len() >= 1,
        n >= 10 ==> decimal(n).len() >= 2,
        forall|i: int| 0 <= i < decimal(n).len() ==> is_digit(#[trigger] decimal(n)[i]),
    decreases n,
{
    if n >= 10 {
        lemma_decimal_is_digits(n / 10);
    }
}

/// Two numbers with the same decimal numeral are the same number.
pub proof fn law_decimal_is_one_to_one(a: nat, b: nat)
    requires
        decimal(a) == decimal(b),
    ensures
        a == b,
    decreases a,
{
    lemma_decimal_is_digits(a);
    lemma_decimal_is_digits(b);
    if a < 10 && b < 10 {
        assert(decimal(a)[0] == digit_char(a));
        assert(decimal(b)[0] == digit_char(b));
    } else if a >= 10 && b >= 10 {
        let front_a = decimal(a / 10);
        let front_b = decimal(b / 10);
        assert(decimal(a).drop_last() =~= front_a);
        assert(decimal(b).drop_last() =~= front_b);
        assert(decimal(a).last() == digit_char(a % 10));
        assert(decimal(b).last() == digit_char(b % 10));
        law_decimal_is_one_to_one(a / 10, b / 10);
        assert(a % 10 == b % 10);
        assert(a == 10 * (a / 10) + a % 10);
        assert(b == 10 * (b / 10) + b % 10);
    } else {
        assert(decimal(a).len() != decimal(b).len());
    }
}

fn digit(d: u64) -> (c: char)
    requires
        d < 10,
    ensures
        c == digit_char(d as nat),
{
    if d == 0 {
        '0'
    } else if d == 1 {
        '1'
    } else if d == 2 {
        '2'
    } else if d == 3 {
        '3'
    } else if d == 4 {
        '4'
    } else if d == 5 {
        '5'
    } else if d == 6 {
        '6'
    } else if d == 7 {
        '7'
    } else if d == 8 {
        '8'
    } else {
        '9'
    }
}

/// Appends the decimal numeral of `n` to `out`.
pub fn push_decimal(out: &mut String, n: u64)
    ensures
        final(out)@ == old(out)@ + decimal(n as nat),
    decreases n,
{
    if n >= 10 {
        push_decimal(out, n / 10);
    }
    push_char(out, digit(n % 10));
}

/// Tells whether `text` begins with `prefix`, character for character.
pub fn starts_with(text: &str, prefix: &str) -> (yes: bool)
    ensures
        yes == prefix@.is_prefix_of(text@),
{
    let mut rest = text.chars();
    let ghost mut seen: int = 0;
    for p in it: prefix.chars()
        invariant
            it.seq() == prefix@,
            seen == it.index(),
            rest.obeys_prophetic_iter_laws(),
            seen <= text@.len(),
            rest.remaining() == text@.skip(seen),
            prefix@.take(seen) == text@.take(seen),
    {
        match rest.next() {
            None => {
                return false;
            },
            Some(t) => {
                if t != p {
                    return false;
                }
                proof {
                    seen = seen + 1;
                }
            },
        }
    }
    true
}

/// The text without its first `count` characters; the empty text where it has
/// no more than that.
pub open spec fn without_first(text: Seq<char>, count: nat) -> Seq<char> {
    if count <= text.len() {
        text.skip(count as int)
    } else {
        Seq::<char>::empty()
    }
}

/// Copies a text without its first `count` characters.
pub fn skip_chars(text: &str, count: usize) -> (rest: String)
    ensures
        rest@ == without_first(text@, count as nat),
{
    let mut rest = String::new();
    let mut passed: usize = 0;
    for c in it: text.chars()
        invariant
            it.seq() == text@,
            passed == if it.index() < count { it.index() } else { count as int },
            rest@ == without_first(text@.take(it.index()), count as nat),
    {
        if passed < count {
            passed = passed + 1;
        } else {
            push_char(&mut rest, c);
        }
    }
    rest
}

/// The last character of a text, if it has one.
pub fn last_char(text: &str) -> (last: Option<char>)
    ensures
        last == if text@.len() == 0 {
            None
        } else {
            Some(text@.last())
        },
{
    let mut last: Option<char> = None;
    for c in it: text.chars()
        invariant
            it.seq() == text@,
            last == if it.index() == 0 {
                None
            } else {
                Some(text@[it.index() - 1])
            },
    {
        last = Some(c);
    }
    last
}

/// Tells whether two texts are the same, character for character.
pub fn same_text(a: &str, b: &str) -> (same: bool)
    ensures
        same == (a@ == b@),
{
    let same = starts_with(a, b) && starts_with(b, a);
    proof {
        if same {
            assert(a@ =~= b@);
        }
    }
    same
}

/// Tells whether a list of texts holds a given text.
pub fn list_contains(list: &Vec<String>, text: &str) -> (found: bool)
    ensures
        found == list.deep_view().contains(text@),
{
    let mut i: usize = 0;
    while i < list.len()
        invariant
            i <= list.len(),
            forall|j: int| 0 <= j < i ==> list.deep_view()[j] != text@,
        decreases list.len() - i,
    {
        if same_text(list[i].as_str(), text) {
            assert(list.deep_view()[i as int] == text@);
            return true;
        }
        i = i + 1;
    }
    false
}

/// Whether one text stands before another in the order of strings: the
/// texts are compared character by character, by code point, and a text
/// stands before every longer text that begins with it.
pub open spec fn text_before(a: Seq<char>, b: Seq<char>) -> bool
    decreases a.len(),
{
    if b.len() == 0 {
        false
    } else if a.len() == 0 {
        true
    } else if a[0] == b[0] {
        text_before(a.drop_first(), b.drop_first())
    } else {
        a[0] < b[0]
    }
}

/// No text stands before itself, and of two texts at most one stands before
/// the other.
pub proof fn lemma_text_order_is_strict(a: Seq<char>, b: Seq<char>)
    ensures
        !text_before(a, a),
        !(text_before(a, b) && text_before(b, a)),
    decreases a.len(),
{
    if a.len() > 0 {
        lemma_text_order_is_strict(a.drop_first(), a.drop_first());
        if b.len() > 0 {
            lemma_text_order_is_strict(a.drop_first(), b.drop_first());
        }
    }
}

/// What stands before a text stands before everything behind that text.
pub proof fn lemma_text_order_is_transitive(a: Seq<char>, b: Seq<char>, c: Seq<char>)
    requires
        text_before(a, b),
        text_before(b, c),
    ensures
        text_before(a, c),
    decreases a.len(),
{
    if a.len() > 0 && a[0] == b[0] && b[0] == c[0] {
        lemma_text_order_is_transitive(a.drop_first(), b.drop_first(), c.drop_first());
    }
}

/// Of two different texts one stands before the other: the order of strings
/// leaves no two texts unordered.
pub proof fn law_text_order_is_total(a: Seq<char>, b: Seq<char>)
    ensures
        a == b || text_before(a, b) || text_before(b, a),
    decreases a.len(),
{
    if a.len() > 0 && b.len() > 0 && a[0] == b[0] {
        law_text_order_is_total(a.drop_first(), b.drop_first());
        if a.drop_first() == b.drop_first() {
            assert(a =~= seq![a[0]] + a.drop_first());
            assert(b =~= seq![b[0]] + b.drop_first());
        }
    } else if a.len() == 0 && b.len() == 0 {
        assert(a =~= b);
    }
}

/// How two texts stand to one another in the order of strings.
#[derive(Debug, PartialEq, Eq, Structural, Clone, Copy)]
pub enum TextOrder {
    /// The first stands before the second.
    Before,
    /// The two are the same text.
    Same,
    /// The second stands before the first.
    After,
}

/// How two texts stand to one another.
pub open spec fn text_order(a: Seq<char>, b: Seq<char>) -> TextOrder {
    if a == b {
        TextOrder::Same
    } else if text_before(a, b) {
        TextOrder::Before
    } else {
        TextOrder::After
    }
}

/// Tells how two texts stand to one another in the order of strings.
pub fn order_texts(a: &str, b: &str) -> (order: TextOrder)
    ensures
        order == text_order(a@, b@),
        order is After ==> text_before(b@, a@),
{
    let mut rest = b.chars();
    let ghost mut seen: int = 0;
    assert(a@.skip(0) =~= a@ && b@.skip(0) =~= b@);
    for p in it: a.chars()
        invariant
            it.seq() == a@,
            seen == it.index(),
            rest.obeys_prophetic_iter_laws(),
            seen <= b@.len(),
            rest.remaining() == b@.skip(seen),
            a@.take(seen) == b@.take(seen),
            text_before(a@, b@) == text_before(a@.skip(seen), b@.skip(seen)),
            text_before(b@, a@) == text_before(b@.skip(seen), a@.skip(seen)),
    {
        proof {
            assert(a@.skip(seen)[0] == p);
            assert(a@.skip(seen).drop_first() =~= a@.skip(seen + 1));
            lemma_text_order_is_strict(a@, b@);
            lemma_text_order_is_strict(b@, b@);
        }
        match rest.next() {
            None => {
                assert(a@ != b@);
                return TextOrder::After;
            },
            Some(t) => {
                proof {
                    assert(b@.skip(seen)[0] == t);
                    assert(b@.skip(seen).drop_first() =~= b@.skip(seen + 1));
                }
                if p < t {
                    assert(a@[seen] != b@[seen]);
                    return TextOrder::Before;
                } else if t < p {
                    assert(a@[seen] != b@[seen]);
                    return TextOrder::After;
                }
                proof {
                    assert(a@.take(seen + 1) =~= a@.take(seen).push(p));
                    assert(b@.take(seen + 1) =~= b@.take(seen).push(t));
                    seen = seen + 1;
                }
            },
        }
    }
    proof {
        assert(a@.take(seen) =~= a@);
        lemma_text_order_is_strict(a@, b@);
        lemma_text_order_is_strict(a@, a@);
    }
    match rest.next() {
        None => {
            assert(b@.take(seen) =~= b@);
            TextOrder::Same
        },
        Some(t) => {
            assert(a@ != b@);
            TextOrder::Before
        },
    }
}

/// Whether a list holds its texts in ascending order, each before the next:
/// such a list holds no text twice.
pub open spec fn ascending(texts: Seq<Seq<char>>) -> bool {
    forall|i: int, j: int|
        0 <= i < j < texts.len() ==> text_before(#[trigger] texts[i], #[trigger] texts[j])
}

/// An ascending list holds no text twice.
pub proof fn law_ascending_holds_each_once(texts: Seq<Seq<char>>)
    requires
        ascending(texts),
    ensures
        texts.no_duplicates(),
{
    assert forall|i: int, j: int| 0 <= i < texts.len() && 0 <= j < texts.len() && i != j implies texts[i]
        != texts[j] by {
        lemma_text_order_is_strict(texts[i], texts[i]);
        if i < j {
            assert(text_before(texts[i], texts[j]));
        } else {
            assert(text_before(texts[j], texts[i]));
        }
    }
}

/// There is only one ascending list of the texts of a set.
pub proof fn lemma_ascending_list_is_unique(first: Seq<Seq<char>>, second: Seq<Seq<char>>)
    requires
        ascending(first),
        ascending(second),
        first.to_set() == second.to_set(),
    ensures
        first == second,
{
    if first.len() > 0 {
        lemma_ascending_lists_agree(first, second, first.len() - 1);
    }
    if second.len() > 0 {
        lemma_ascending_lists_agree(second, first, second.len() - 1);
    }
    assert(first =~= second);
}

proof fn lemma_ascending_lists_agree(first: Seq<Seq<char>>, second: Seq<Seq<char>>, k: int)
    requires
        ascending(first),
        ascending(second),
        first.to_set() == second.to_set(),
        0 <= k < first.len(),
    ensures
        k < second.len(),
        forall|j: int| 0 <= j <= k ==> first[j] == second[j],
    decreases k,
{
    if k > 0 {
        lemma_ascending_lists_agree(first, second, k - 1);
    }
    let x = first[k];
    assert(first.to_set().contains(x));
    assert(second.contains(x));
    let l = choose|l: int| 0 <= l < second.len() && second[l] == x;
    lemma_text_order_is_strict(x, x);
    if l < k {
        assert(text_before(first[l], first[k]));
    } else {
        let y = second[k];
        if x != y {
            assert(text_before(second[k], second[l]));
            assert(second.to_set().contains(y));
            assert(first.contains(y));
            let m = choose|m: int| 0 <= m < first.len() && first[m] == y;
            lemma_text_order_is_strict(y, y);
            lemma_text_order_is_strict(x, y);
            if m < k {
                assert(text_before(second[m], second[k]));
            } else {
                assert(text_before(first[k], first[m]));
            }
        }
    }
}

/// Whether `char::is_whitespace` of the standard library holds of a
/// character: whether it has the Unicode property White_Space.
pub uninterp spec fn is_white_space(c: char) -> bool;

/// `char::is_whitespace` of the standard library, which depends on the
/// character alone; the contract names its result.
#[verifier::external_body]
fn white_space(c: char) -> (yes: bool)
    ensures
        yes == is_white_space(c),
{
    c.is_whitespace()
}

/// A text without the white space in front of it.
pub open spec fn trimmed_start(text: Seq<char>) -> Seq<char>
    decreases text.len(),
{
    if text.len() > 0 && is_white_space(text[0]) {
        trimmed_start(text.drop_first())
    } else {
        text
    }
}

/// A text without the white space behind it.
pub open spec fn trimmed_end(text: Seq<char>) -> Seq<char>
    decreases text.len(),
{
    if text.len() > 0 && is_white_space(text.last()) {
        trimmed_end(text.drop_last())
    } else {
        text
    }
}

/// A text without the white space around it.
pub open spec fn trimmed(text: Seq<char>) -> Seq<char> {
    trimmed_end(trimmed_start(text))
}

/// Whether a text holds white space only.
pub open spec fn is_blank(text: Seq<char>) -> bool {
    forall|i: int| 0 <= i < text.len() ==> is_white_space(#[trigger] text[i])
}

/// One more character behind a text: where the text is blank the character
/// alone is left, if it is no white space; otherwise it follows what was left
/// of the text.
proof fn lemma_trimmed_start_grows(text: Seq<char>, c: char)
    ensures
        is_blank(text) ==> trimmed_start(text) == Seq::<char>::empty(),
        trimmed_start(text.push(c)) == if !is_blank(text) {
            trimmed_start(text).push(c)
        } else if is_white_space(c) {
            Seq::<char>::empty()
        } else {
            seq![c]
        },
    decreases text.len(),
{
    if text.len() == 0 {
        assert(text.push(c).drop_first() =~= Seq::<char>::empty());
        assert(text.push(c) =~= seq![c]);
    } else {
        let rest = text.drop_first();
        assert(text.push(c).drop_first() =~= rest.push(c));
        lemma_trimmed_start_grows(rest, c);
        if is_white_space(text[0]) {
            assert(is_blank(text) == is_blank(rest)) by {
                if is_blank(rest) {
                    assert forall|i: int| 0 <= i < text.len() implies is_white_space(
                        #[trigger] text[i],
                    ) by {
                        if i > 0 {
                            assert(text[i] == rest[i - 1]);
                        }
                    }
                } else {
                    let i = choose|i: int| 0 <= i < rest.len() && !is_white_space(rest[i]);
                    assert(text[i + 1] == rest[i]);
                }
            }
        } else {
            assert(!is_blank(text));
        }
    }
}

/// White space behind a text that does not end in white space is all that
/// is taken from its end.
proof fn lemma_trimmed_end_of_padded(text: Seq<char>, padding: Seq<char>)
    requires
        text.len() == 0 || !is_white_space(text.last()),
        is_blank(padding),
    ensures
        trimmed_end(text + padding) == text,
    decreases padding.len(),
{
    if padding.len() == 0 {
        assert(text + padding =~= text);
    } else {
        let whole = text + padding;
        assert(whole.last() == padding.last());
        assert(whole.drop_last() =~= text + padding.drop_last());
        lemma_trimmed_end_of_padded(text, padding.drop_last());
    }
}

/// What is in hand while the white space is taken off a text, character by
/// character: the text that is kept, and the white space met since, which is
/// kept only if something else follows it.
#[derive(Debug, PartialEq, Eq)]
pub struct Trimmer {
    pub kept: String,
    pub held: String,
}

impl Trimmer {
    /// Nothing in hand.
    pub fn new() -> (start: Trimmer)
        ensures
            start.kept@ == Seq::<char>::empty(),
            start.held@ == Seq::<char>::empty(),
    {
        Trimmer { kept: String::new(), held: String::new() }
    }

    /// Takes the next character of the text; `blank` says whether it is
    /// white space. White space in front of the text is let go and later
    /// white space is held back; any other character is kept, behind the
    /// white space that was held back for it.
    pub fn take(self, c: char, blank: bool) -> (next: Trimmer)
        ensures
            next.kept@ == if blank {
                self.kept@
            } else {
                (self.kept@ + self.held@).push(c)
            },
            next.held@ == if !blank || self.kept@.len() == 0 {
                Seq::<char>::empty()
            } else {
                self.held@.push(c)
            },
    {
        let Trimmer { kept, held } = self;
        if blank {
            if kept.as_str().is_empty() {
                Trimmer { kept, held: String::new() }
            } else {
                let mut held = held;
                push_char(&mut held, c);
                Trimmer { kept, held }
            }
        } else {
            let mut kept = kept;
            kept.append(held.as_str());
            push_char(&mut kept, c);
            Trimmer { kept, held: String::new() }
        }
    }

    /// The text without the white space around it, once every character was
    /// taken.
    pub fn finish(self) -> (out: String)
        ensures
            out@ == self.kept@,
    {
        self.kept
    }
}

/// Copies a text without the white space around it.
pub fn trim(text: &str) -> (out: String)
    ensures
        out@ == trimmed(text@),
{
    let mut trimmer = Trimmer::new();
    assert(text@.take(0) =~= Seq::<char>::empty());
    for c in it: text.chars()
        invariant
            it.seq() == text@,
            (trimmer.kept@.len() > 0) == !is_blank(text@.take(it.index())),
            trimmed_start(text@.take(it.index())) == trimmer.kept@ + trimmer.held@,
            trimmer.kept@.len() == 0 || !is_white_space(trimmer.kept@.last()),
            is_blank(trimmer.held@),
    {
        let ghost seen = text@.take(it.index());
        let ghost front = trimmer.kept@ + trimmer.held@;
        proof {
            assert(text@.take(it.index() + 1) =~= seen.push(c));
            lemma_trimmed_start_grows(seen, c);
            if !is_white_space(c) {
                assert(seen.push(c)[seen.len() as int] == c);
            } else if is_blank(seen) {
                assert forall|i: int| 0 <= i < seen.push(c).len() implies is_white_space(
                    #[trigger] seen.push(c)[i],
                ) by {
                    if i < seen.len() {
                        assert(seen.push(c)[i] == seen[i]);
                    }
                }
            } else {
                let i = choose|i: int| 0 <= i < seen.len() && !is_white_space(seen[i]);
                assert(seen.push(c)[i] == seen[i]);
            }
        }
        trimmer = trimmer.take(c, white_space(c));
        proof {
            if is_blank(seen) {
                assert(front =~= Seq::<char>::empty());
            }
            if !is_white_space(c) || !is_blank(seen) {
                assert(trimmer.kept@ + trimmer.held@ =~= front.push(c));
            } else {
                assert(trimmer.kept@ + trimmer.held@ =~= Seq::<char>::empty());
            }
        }
    }
    proof {
        assert(text@.take(text@.len() as int) =~= text@);
        lemma_trimmed_end_of_padded(trimmer.kept@, trimmer.held@);
    }
    trimmer.finish()
}

} // verus!
