//! What a new bot project is set up with: the kovi version it depends on and the lines
//! added to its `Cargo.toml`.
use vstd::prelude::*;
use crate::text::string_push_str;

verus! {

/// The version a new project depends on: the one asked for; else the latest published one,
/// when it could be learnt; else the version of this library.
pub fn chosen_version(requested: Option<String>, latest: Option<String>, own: &str) -> (r: String)
    ensures
        r@ == match requested {
            Some(v) => v@,
            None => match latest {
                Some(l) => l@,
                None => own@,
            },
        },
{
    match requested {
        Some(v) => v,
        None => match latest {
            Some(l) => l,
            None => own.to_owned(),
        },
    }
}

/// The text appended to a new project's `Cargo.toml`: the kovi dependency, with its logger,
/// then a `[workspace]` table of its own.
pub fn cargo_toml_addition(version: &str) -> (r: String)
    ensures
        r@ == "kovi = { version = \""@ + version@ + "\", features = [\"logger\"] }\n\n[workspace]\n"@,
{
    let mut r = String::new();
    string_push_str(&mut r, "kovi = { version = \"");
    string_push_str(&mut r, version);
    string_push_str(&mut r, "\", features = [\"logger\"] }\n\n[workspace]\n");
    r
}

} // verus!
