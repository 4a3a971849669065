//! Where the durable store lives: a configured path, or a fixed place below
//! the user's home directory.

use crate::text::{last_char, same_text, skip_chars, starts_with, without_first};
use vstd::prelude::*;
use vstd::string::*;

verus! {

/// Why no location could be named.
#[derive(Debug, PartialEq, Eq, Structural, Clone, Copy)]
pub enum LocationError {
    /// The path depends on the home directory, and none is known.
    NoHome,
}

/// A directory and a name below it, with exactly one separator between them
/// where the directory does not already end in one.
pub open spec fn joined(directory: Seq<char>, name: Seq<char>) -> Seq<char> {
    if directory.len() == 0 {
        name
    } else if directory.last() == '/' {
        directory + name
    } else {
        directory + "/"@ + name
    }
}

/// Joins a directory and a name below it.
pub fn join_path(directory: &str, name: &str) -> (path: String)
    ensures
        path@ == joined(directory@, name@),
{
    let mut path = String::from_str(directory);
    match last_char(directory) {
        None => {},
        Some(c) => {
            if c != '/' {
                path.append("/");
            }
        },
    }
    path.append(name);
    path
}

/// The store's place below a home directory.
pub open spec fn default_location(home: Seq<char>) -> Seq<char> {
    joined(home, ".local/share/rmfeeder/rmfeeder_state.sqlite"@)
}

/// The default location of the durable store for the given home directory.
pub fn default_state_path(home: &str) -> (path: String)
    ensures
        path@ == default_location(home@),
{
    join_path(home, ".local/share/rmfeeder/rmfeeder_state.sqlite")
}

/// Whether a path is written relative to the home directory: `~` alone, or
/// `~/` and more.
pub open spec fn is_home_relative(path: Seq<char>) -> bool {
    path == "~"@ || "~/"@.is_prefix_of(path)
}

/// A path with a leading `~` replaced by the home directory.
pub open spec fn expanded(path: Seq<char>, home: Seq<char>) -> Seq<char> {
    if path == "~"@ {
        home
    } else if "~/"@.is_prefix_of(path) {
        joined(home, without_first(path, 2))
    } else {
        path
    }
}

/// Where the store lives: the configured path with a leading `~` expanded,
/// or the default location where none is configured. The home directory is
/// needed only for the default and for a path that begins with `~`.
pub open spec fn resolved_location(custom: Option<Seq<char>>, home: Option<Seq<char>>) -> Result<
    Seq<char>,
    LocationError,
> {
    match custom {
        Some(path) => {
            if is_home_relative(path) {
                match home {
                    Some(directory) => Ok(expanded(path, directory)),
                    None => Err(LocationError::NoHome),
                }
            } else {
                Ok(path)
            }
        },
        None => match home {
            Some(directory) => Ok(default_location(directory)),
            None => Err(LocationError::NoHome),
        },
    }
}

/// The view of a path or the reason why there is none.
pub open spec fn location_view(location: Result<String, LocationError>) -> Result<
    Seq<char>,
    LocationError,
> {
    match location {
        Ok(path) => Ok(path@),
        Err(error) => Err(error),
    }
}

/// Replaces a leading `~` by the home directory.
pub fn expand_tilde_path(path: &str, home: &str) -> (full: String)
    ensures
        full@ == expanded(path@, home@),
{
    if same_text(path, "~") {
        String::from_str(home)
    } else if starts_with(path, "~/") {
        let rest = skip_chars(path, 2);
        join_path(home, rest.as_str())
    } else {
        String::from_str(path)
    }
}

/// Resolves the location of the durable store from the configured path, if
/// any, and the home directory, if known.
pub fn state_path(custom: Option<&str>, home: Option<&str>) -> (location: Result<
    String,
    LocationError,
>)
    ensures
        location_view(location) == resolved_location(custom.deep_view(), home.deep_view()),
{
    match custom {
        Some(path) => {
            if same_text(path, "~") || starts_with(path, "~/") {
                match home {
                    Some(directory) => Ok(expand_tilde_path(path, directory)),
                    None => Err(LocationError::NoHome),
                }
            } else {
                Ok(String::from_str(path))
            }
        },
        None => match home {
            Some(directory) => Ok(default_state_path(directory)),
            None => Err(LocationError::NoHome),
        },
    }
}

} // verus!
