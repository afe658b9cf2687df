//! Inactivity-based role demotion.
//!
//! A guild configures a ladder of roles, highest first. The access sweep
//! walks the members: whoever has shown no recent activity is moved one
//! rung down from the highest ladder role they hold — except off the
//! lowest rung, which nobody is demoted from. This module decides the
//! demotion for one member; fetching members, activity rows and the role
//! changes themselves are the caller's.

use vstd::prelude::*;

verus! {

/// The index of the first ladder rung (among the demotable ones, all but
/// the last) that the member holds, or the number of demotable rungs if
/// none.
pub open spec fn first_held_rung(ladder: Seq<u64>, held: Seq<u64>, i: int) -> int
    decreases ladder.len() - 1 - i when 0 <= i <= ladder.len() - 1
{
    if i >= ladder.len() - 1 {
        i
    } else if held.contains(ladder[i]) {
        i
    } else {
        first_held_rung(ladder, held, i + 1)
    }
}

/// What the sweep does to one member.
#[derive(Clone, Copy, PartialEq, Eq, Structural, Debug)]
pub enum Demotion {
    /// Recently active, or on no demotable rung: leave alone.
    Keep,
    /// Remove the held rung, grant the one below it.
    Move { remove_role: u64, add_role: u64 },
}

/// Decide one member: an active member keeps their roles; an inactive one
/// loses the highest demotable ladder role they hold and gains the rung
/// below it. The lowest rung is never taken away.
#[verifier::loop_isolation(false)]
pub fn demotion_for(ladder: &Vec<u64>, member_roles: &Vec<u64>, is_active: bool) -> (r: Demotion)
    requires
        ladder@.len() >= 2,
    ensures
        is_active ==> r == Demotion::Keep,
        !is_active ==> ({
            let i = first_held_rung(ladder@, member_roles@, 0);
            if i < ladder@.len() - 1 {
                r == Demotion::Move { remove_role: ladder@[i], add_role: ladder@[i + 1] }
            } else {
                r == Demotion::Keep
            }
        }),
{
    if is_active {
        return Demotion::Keep;
    }
    let n = ladder.len();
    let mut i: usize = 0;
    while i < n - 1
        invariant
            0 <= i <= n - 1,
            n == ladder@.len(),
            n >= 2,
            first_held_rung(ladder@, member_roles@, 0) == first_held_rung(
                ladder@,
                member_roles@,
                i as int,
            ),
        decreases n - 1 - i,
    {
        if contains_role(member_roles, ladder[i]) {
            return Demotion::Move { remove_role: ladder[i], add_role: ladder[i + 1] };
        }
        i = i + 1;
    }
    Demotion::Keep
}

/// Linear membership test on a member's role list.
fn contains_role(roles: &Vec<u64>, role: u64) -> (r: bool)
    ensures
        r == roles@.contains(role),
{
    let n = roles.len();
    let mut i: usize = 0;
    while i < n
        invariant
            i <= n,
            n == roles@.len(),
            forall|j: int| 0 <= j < i ==> roles@[j] != role,
        decreases n - i,
    {
        if roles[i] == role {
            return true;
        }
        i = i + 1;
    }
    false
}

} // verus!
