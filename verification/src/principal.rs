//! Names of principals as the registry writes them.
//!
//! A robot is stored and compared under its bare name. On the wire the
//! registry qualifies it with the organization that owns it:
//! `{organization}+{robot}`.

use substring::Substring;
use vstd::prelude::*;

verus! {

/// The characters of `text` from position `start` up to, not including,
/// position `end`. Both positions are clamped to the length of `text`, and an
/// empty or reversed range selects nothing.
pub open spec fn char_range(text: Seq<char>, start: int, end: int) -> Seq<char> {
    if end <= start {
        Seq::empty()
    } else if start >= text.len() {
        Seq::empty()
    } else if end >= text.len() {
        text.subrange(start, text.len() as int)
    } else {
        text.subrange(start, end)
    }
}

/// The name under which the registry knows the robot `robot` of
/// `organization`.
pub open spec fn wire_robot_name(organization: Seq<char>, robot: Seq<char>) -> Seq<char> {
    organization + seq!['+'] + robot
}

/// What is left of a name reported by the registry once the organization and
/// the separator that follows it are taken off its front.
pub open spec fn bare_robot_name(organization: Seq<char>, reported: Seq<char>) -> Seq<char> {
    if reported.len() <= organization.len() {
        Seq::empty()
    } else {
        reported.subrange(organization.len() as int + 1, reported.len() as int)
    }
}

/// Calls `substring::Substring::substring` on `text`. The crate counts
/// characters, not bytes: it returns the empty string when `end <= start`,
/// and otherwise the characters from `start` to `end`, each position cut off
/// at the end of `text`.
#[verifier::external_body]
fn substring(text: &str, start: usize, end: usize) -> (part: String)
    ensures
        part@ == char_range(text@, start as int, end as int),
{
    text.substring(start, end).to_string()
}

/// Renders a robot name for the wire: `{organization}+{robot}`.
pub fn mangle_robot_name(organization: &str, robot: &str) -> (wire: String)
    ensures
        wire@ == wire_robot_name(organization@, robot@),
{
    let mut wire = String::from_str(organization);
    wire.append("+");
    wire.append(robot);
    proof {
        reveal_strlit("+");
        assert("+"@ =~= seq!['+']);
    }
    wire
}

/// Recovers the bare robot name from a name reported by the registry, by
/// dropping as many characters as the organization has, and one more for the
/// separator.
pub fn demangle_robot_name(organization: &str, reported: &str) -> (bare: String)
    ensures
        bare@ == bare_robot_name(organization@, reported@),
{
    let skip = organization.unicode_len();
    let total = reported.unicode_len();
    if total <= skip {
        String::new()
    } else {
        substring(reported, skip + 1, total)
    }
}

/// Mangling a robot name and demangling the result gives the robot name back,
/// whatever the organization is called.
pub proof fn lemma_robot_name_round_trip(organization: Seq<char>, robot: Seq<char>)
    ensures
        bare_robot_name(organization, wire_robot_name(organization, robot)) == robot,
{
    let wire = wire_robot_name(organization, robot);
    if robot.len() == 0 {
        assert(bare_robot_name(organization, wire) =~= robot);
    } else {
        assert(wire.subrange(organization.len() as int + 1, wire.len() as int) =~= robot);
    }
}

} // verus!
