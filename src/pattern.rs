//! Regular-expression matching, and reading source locations from its groups.
use vstd::prelude::*;

use crate::text::{parse_u32, parsed_u32};

verus! {

/// The groups of the leftmost-first match of `pattern` in `haystack`, group 0
/// being the whole match, or `None` where nothing matches.
pub uninterp spec fn regex_captures(pattern: Seq<char>, haystack: Seq<char>) -> Option<
    Seq<Option<Seq<char>>>,
>;

pub open spec fn groups_view(g: Seq<Option<String>>) -> Seq<Option<Seq<char>>> {
    g.map_values(
        |x: Option<String>|
            match x {
                Some(t) => Some(t@),
                None => None,
            },
    )
}

pub open spec fn captures_view(c: Option<Vec<Option<String>>>) -> Option<Seq<Option<Seq<char>>>> {
    match c {
        Some(g) => Some(groups_view(g@)),
        None => None,
    }
}

/// Relies on `regex::Regex::new` and `regex::Regex::captures`: the capture
/// groups of the leftmost-first match, which depend on the pattern and the
/// haystack alone; a pattern that does not compile matches nothing.
#[verifier::external_body]
pub(crate) fn captures(pattern: &str, haystack: &str) -> (r: Option<Vec<Option<String>>>)
    ensures
        captures_view(r) == regex_captures(pattern@, haystack@),
{
    match regex::Regex::new(pattern) {
        Ok(re) => re.captures(haystack).map(
            |c| c.iter().map(|m| m.map(|m| m.as_str().to_string())).collect(),
        ),
        Err(_) => None,
    }
}

/// Group `i`, if it took part in the match.
pub open spec fn group_at(g: Seq<Option<Seq<char>>>, i: int) -> Option<Seq<char>> {
    if 0 <= i < g.len() {
        g[i]
    } else {
        None
    }
}

/// A path and a line number read from two groups of a match.
pub open spec fn location_in(g: Seq<Option<Seq<char>>>, path_group: int, line_group: int) -> Option<
    (Seq<char>, u32),
> {
    match (group_at(g, path_group), group_at(g, line_group)) {
        (Some(p), Some(d)) => match parsed_u32(d) {
            Some(n) => Some((p, n)),
            None => None,
        },
        _ => None,
    }
}

pub open spec fn location_view(l: Option<(String, u32)>) -> Option<(Seq<char>, u32)> {
    match l {
        Some((p, n)) => Some((p@, n)),
        None => None,
    }
}

/// Reads a path from group `path_group` and a line number from group
/// `line_group`, as `location_in` describes.
pub fn location_from_groups(g: &Vec<Option<String>>, path_group: usize, line_group: usize) -> (r:
    Option<(String, u32)>)
    ensures
        location_view(r) == location_in(groups_view(g@), path_group as int, line_group as int),
{
    if path_group >= g.len() || line_group >= g.len() {
        return None;
    }
    let path = match &g[path_group] {
        Some(p) => p.clone(),
        None => {
            return None;
        },
    };
    let digits = match &g[line_group] {
        Some(d) => d,
        None => {
            return None;
        },
    };
    match parse_u32(digits.as_str()) {
        Some(n) => Some((path, n)),
        None => None,
    }
}

} // verus!
