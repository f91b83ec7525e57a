//! Combinator utilities: racing several pollable contenders against each
//! other, and the select wrappers that tag which contender won.
//!
//! A race polls its contenders in order and completes with the first Ready
//! result, leaving later contenders unpolled for that round. One round is
//! modelled by the contenders' poll outcomes: `Some(value)` for a contender
//! whose poll returned Ready, `None` for one that returned Pending.

use vstd::prelude::*;

verus! {

/// The first Ready outcome among the contenders, polled in order.
pub open spec fn winner<T>(s: Seq<Option<T>>) -> Option<T>
    decreases s.len(),
{
    if s.len() == 0 {
        None
    } else if s.first() is Some {
        s.first()
    } else {
        winner(s.drop_first())
    }
}

/// The winner is the contender at the lowest Ready index.
pub proof fn lemma_winner_first<T>(s: Seq<Option<T>>, k: int)
    requires
        0 <= k < s.len(),
        (s[k] is Some),
        forall|j: int| 0 <= j < k ==> (s[j] is None),
    ensures
        winner(s) == s[k],
    decreases k,
{
    if k > 0 {
        lemma_winner_first(s.drop_first(), k - 1);
    }
}

/// With no contender Ready, the race stays Pending.
pub proof fn lemma_winner_none<T>(s: Seq<Option<T>>)
    requires
        forall|j: int| 0 <= j < s.len() ==> (s[j] is None),
    ensures
        (winner(s) is None),
    decreases s.len(),
{
    if s.len() > 0 {
        lemma_winner_none(s.drop_first());
    }
}

/// Wrapper which races contenders against each other: one round's outcomes,
/// in contender order.
pub struct Race<T> {
    pub contenders: Vec<Option<T>>,
}

/// Build a race over one round of contender outcomes.
pub fn race<T>(contenders: Vec<Option<T>>) -> (r: Race<T>)
    ensures
        r.contenders == contenders,
{
    Race { contenders }
}

impl<T> Race<T> {
    /// Resolve the round: the first Ready contender's value, or Pending
    /// (`None`) when every contender is still Pending.
    pub fn poll(self) -> (r: Option<T>)
        ensures
            r == winner(self.contenders@),
    {
        let ghost orig = self.contenders@;
        let mut rest = self.contenders;
        while rest.len() > 0
            invariant
                orig == self.contenders@,
                winner(orig) == winner(rest@),
            decreases rest@.len(),
        {
            let ghost pre = rest@;
            let c = rest.remove(0);
            proof {
                assert(rest@ =~= pre.drop_first());
                assert(pre.first() == c);
            }
            match c {
                Some(v) => {
                    proof {
                        assert(winner(pre) == Some(v));
                    }
                    return Some(v);
                },
                None => {},
            }
        }
        None
    }
}

/// The winner of a two-way select.
pub enum Sel2<T1, T2> {
    A(T1),
    B(T2),
}

/// The winner of a three-way select.
pub enum Sel3<T1, T2, T3> {
    A(T1),
    B(T2),
    C(T3),
}

/// The winner of a four-way select.
pub enum Sel4<T1, T2, T3, T4> {
    A(T1),
    B(T2),
    C(T3),
    D(T4),
}

/// Race two contenders, tagging which one won this round.
pub fn select2<T1, T2>(a: Option<T1>, b: Option<T2>) -> (r: Option<Sel2<T1, T2>>)
    ensures
        (a is Some) ==> r == Some(Sel2::<T1, T2>::A(a.unwrap())),
        (a is None) && (b is Some) ==> r == Some(Sel2::<T1, T2>::B(b.unwrap())),
        (a is None) && (b is None) ==> (r is None),
{
    let mut contenders: Vec<Option<Sel2<T1, T2>>> = Vec::new();
    contenders.push(
        match a {
            Some(v) => Some(Sel2::A(v)),
            None => None,
        },
    );
    contenders.push(
        match b {
            Some(v) => Some(Sel2::B(v)),
            None => None,
        },
    );
    let r = race(contenders).poll();
    proof {
        reveal_with_fuel(winner, 3);
    }
    r
}

/// Race three contenders, tagging which one won this round.
pub fn select3<T1, T2, T3>(a: Option<T1>, b: Option<T2>, c: Option<T3>) -> (r: Option<
    Sel3<T1, T2, T3>,
>)
    ensures
        (a is Some) ==> r == Some(Sel3::<T1, T2, T3>::A(a.unwrap())),
        (a is None) && (b is Some) ==> r == Some(Sel3::<T1, T2, T3>::B(b.unwrap())),
        (a is None) && (b is None) && (c is Some) ==> r == Some(Sel3::<T1, T2, T3>::C(c.unwrap())),
        (a is None) && (b is None) && (c is None) ==> (r is None),
{
    let mut contenders: Vec<Option<Sel3<T1, T2, T3>>> = Vec::new();
    contenders.push(
        match a {
            Some(v) => Some(Sel3::A(v)),
            None => None,
        },
    );
    contenders.push(
        match b {
            Some(v) => Some(Sel3::B(v)),
            None => None,
        },
    );
    contenders.push(
        match c {
            Some(v) => Some(Sel3::C(v)),
            None => None,
        },
    );
    let r = race(contenders).poll();
    proof {
        reveal_with_fuel(winner, 4);
    }
    r
}

/// Race four contenders, tagging which one won this round.
pub fn select4<T1, T2, T3, T4>(a: Option<T1>, b: Option<T2>, c: Option<T3>, d: Option<T4>) -> (r:
    Option<Sel4<T1, T2, T3, T4>>)
    ensures
        (a is Some) ==> r == Some(Sel4::<T1, T2, T3, T4>::A(a.unwrap())),
        (a is None) && (b is Some) ==> r == Some(Sel4::<T1, T2, T3, T4>::B(b.unwrap())),
        (a is None) && (b is None) && (c is Some) ==> r == Some(
            Sel4::<T1, T2, T3, T4>::C(c.unwrap()),
        ),
        (a is None) && (b is None) && (c is None) && (d is Some) ==> r == Some(
            Sel4::<T1, T2, T3, T4>::D(d.unwrap()),
        ),
        (a is None) && (b is None) && (c is None) && (d is None) ==> (r is None),
{
    let mut contenders: Vec<Option<Sel4<T1, T2, T3, T4>>> = Vec::new();
    contenders.push(
        match a {
            Some(v) => Some(Sel4::A(v)),
            None => None,
        },
    );
    contenders.push(
        match b {
            Some(v) => Some(Sel4::B(v)),
            None => None,
        },
    );
    contenders.push(
        match c {
            Some(v) => Some(Sel4::C(v)),
            None => None,
        },
    );
    contenders.push(
        match d {
            Some(v) => Some(Sel4::D(v)),
            None => None,
        },
    );
    let r = race(contenders).poll();
    proof {
        reveal_with_fuel(winner, 5);
    }
    r
}

} // verus!
