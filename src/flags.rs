use vstd::prelude::*;

verus! {

/// The text in lower case, as `str::to_lowercase` gives it.
pub uninterp spec fn lowercase_of(s: Seq<char>) -> Seq<char>;

/// Relies on `str::to_lowercase`: the result depends on the characters alone.
#[verifier::external_body]
fn lowercase(s: &str) -> (r: String)
    ensures
        r@ == lowercase_of(s@),
{
    s.to_lowercase()
}

/// A switch's value turns it on when it is `1`, or `true` once lower-cased.
pub open spec fn switch_on(raw: Seq<char>, lowered: Seq<char>) -> bool {
    raw == seq!['1'] || lowered == seq!['t', 'r', 'u', 'e']
}

/// Whether a switch is on, given its value and that value lower-cased.
pub fn switch_on_lowered(raw: &str, lowered: &str) -> (r: bool)
    ensures
        r == switch_on(raw@, lowered@),
{
    let is_one = raw.unicode_len() == 1 && raw.get_char(0) == '1';
    proof {
        if raw@ == seq!['1'] {
            assert(raw@[0] == '1');
        }
        if is_one {
            assert(raw@ =~= seq!['1']);
        }
    }
    let is_true = lowered.unicode_len() == 4 && lowered.get_char(0) == 't' && lowered.get_char(1)
        == 'r' && lowered.get_char(2) == 'u' && lowered.get_char(3) == 'e';
    proof {
        if lowered@ == seq!['t', 'r', 'u', 'e'] {
            assert(lowered@[0] == 't' && lowered@[1] == 'r' && lowered@[2] == 'u' && lowered@[3] == 'e');
        }
        if is_true {
            assert(lowered@ =~= seq!['t', 'r', 'u', 'e']);
        }
    }
    is_one || is_true
}

/// Whether a switch with this value is on.
pub fn switch_value_on(raw: &str) -> (r: bool)
    ensures
        r == switch_on(raw@, lowercase_of(raw@)),
{
    let lowered = lowercase(raw);
    switch_on_lowered(raw, lowered.as_str())
}

/// Whether a switch that may be unset is on: off where unset.
pub open spec fn set_and_on(value: Option<Seq<char>>) -> bool {
    match value {
        Some(v) => switch_on(v, lowercase_of(v)),
        None => false,
    }
}

/// Debug output: on where `DEBUG` is set and on.
pub fn debug_enabled(debug: Option<&str>) -> (r: bool)
    ensures
        r == set_and_on(match debug {
            Some(d) => Some(d@),
            None => None,
        }),
{
    match debug {
        Some(d) => switch_value_on(d),
        None => false,
    }
}

/// Verbose output: as `VERBOSE` says where it is set, else as `DEBUG` says.
pub fn verbose_enabled(verbose: Option<&str>, debug: Option<&str>) -> (r: bool)
    ensures
        verbose matches Some(v) ==> r == switch_on(v@, lowercase_of(v@)),
        verbose.is_none() ==> r == set_and_on(match debug {
            Some(d) => Some(d@),
            None => None,
        }),
{
    match verbose {
        Some(v) => switch_value_on(v),
        None => debug_enabled(debug),
    }
}

} // verus!
