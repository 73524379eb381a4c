//! Player positions around the table.

use vstd::prelude::*;

verus! {

/// One of the two teams.
#[derive(PartialEq, Eq, Structural, Clone, Copy, Debug)]
pub enum Team {
    /// Players P0 and P2
    T02,
    /// Players P1 and P3
    T13,
}

/// The team that the seat with number `n` belongs to.
pub open spec fn spec_team_of_seat(n: int) -> Team {
    if n % 2 == 0 {
        Team::T02
    } else {
        Team::T13
    }
}

impl Team {
    /// The team's number: `0` for T02, `1` for T13.
    pub open spec fn spec_n(self) -> int {
        match self {
            Team::T02 => 0,
            Team::T13 => 1,
        }
    }

    /// The team's number: `0` for T02, `1` for T13.
    pub fn n(self) -> (r: usize)
        ensures
            r == self.spec_n(),
    {
        match self {
            Team::T02 => 0,
            Team::T13 => 1,
        }
    }

    /// Returns the team corresponding to the given seat number.
    pub fn from_n(n: usize) -> (t: Team)
        requires
            n < 4,
        ensures
            t == spec_team_of_seat(n as int),
    {
        if n == 0 || n == 2 {
            Team::T02
        } else {
            Team::T13
        }
    }

    /// The other team.
    pub open spec fn spec_opponent(self) -> Team {
        match self {
            Team::T02 => Team::T13,
            Team::T13 => Team::T02,
        }
    }

    /// Returns the other team.
    pub fn opponent(self) -> (t: Team)
        ensures
            t == self.spec_opponent(),
            t != self,
    {
        match self {
            Team::T02 => Team::T13,
            Team::T13 => Team::T02,
        }
    }
}

/// A position around the table.
#[derive(PartialEq, Eq, Structural, Clone, Copy, Debug)]
pub enum PlayerPos {
    /// Player 0
    P0,
    /// Player 1
    P1,
    /// Player 2
    P2,
    /// Player 3
    P3,
}

impl PlayerPos {
    /// The seat number, `0` to `3`.
    pub open spec fn spec_n(self) -> int {
        match self {
            PlayerPos::P0 => 0,
            PlayerPos::P1 => 1,
            PlayerPos::P2 => 2,
            PlayerPos::P3 => 3,
        }
    }

    /// The seat with number `n % 4`.
    pub open spec fn spec_from_n(n: int) -> PlayerPos {
        if n % 4 == 0 {
            PlayerPos::P0
        } else if n % 4 == 1 {
            PlayerPos::P1
        } else if n % 4 == 2 {
            PlayerPos::P2
        } else {
            PlayerPos::P3
        }
    }

    /// The seat number, `0` to `3`.
    pub fn n(self) -> (r: usize)
        ensures
            r == self.spec_n(),
    {
        match self {
            PlayerPos::P0 => 0,
            PlayerPos::P1 => 1,
            PlayerPos::P2 => 2,
            PlayerPos::P3 => 3,
        }
    }

    /// Returns the position corresponding to the number (`0` to `3`).
    pub fn from_n(n: usize) -> (p: PlayerPos)
        requires
            n < 4,
        ensures
            p == PlayerPos::spec_from_n(n as int),
            p.spec_n() == n,
    {
        if n == 0 {
            PlayerPos::P0
        } else if n == 1 {
            PlayerPos::P1
        } else if n == 2 {
            PlayerPos::P2
        } else {
            PlayerPos::P3
        }
    }

    /// The team of this seat: seats 0 and 2 sit together, as do 1 and 3.
    pub open spec fn spec_team(self) -> Team {
        spec_team_of_seat(self.spec_n())
    }

    /// Returns the player's team.
    pub fn team(self) -> (t: Team)
        ensures
            t == self.spec_team(),
    {
        match self {
            PlayerPos::P0 | PlayerPos::P2 => Team::T02,
            PlayerPos::P1 | PlayerPos::P3 => Team::T13,
        }
    }

    /// Returns `true` if `self` and `other` are in the same team.
    pub fn is_partner(self, other: PlayerPos) -> (r: bool)
        ensures
            r == (self.spec_team() == other.spec_team()),
    {
        self.team() == other.team()
    }

    /// The seat after this one, in cyclic order.
    pub open spec fn spec_next(self) -> PlayerPos {
        PlayerPos::spec_from_n(self.spec_n() + 1)
    }

    /// Returns the next player in line.
    pub fn next(self) -> (p: PlayerPos)
        ensures
            p == self.spec_next(),
    {
        match self {
            PlayerPos::P0 => PlayerPos::P1,
            PlayerPos::P1 => PlayerPos::P2,
            PlayerPos::P2 => PlayerPos::P3,
            PlayerPos::P3 => PlayerPos::P0,
        }
    }

    /// The seat `n` places after this one, in cyclic order.
    pub open spec fn spec_next_n(self, n: int) -> PlayerPos {
        PlayerPos::spec_from_n(self.spec_n() + n)
    }

    /// Returns the player `n` seats further.
    pub fn next_n(self, n: usize) -> (p: PlayerPos)
        ensures
            p == self.spec_next_n(n as int),
    {
        let r: usize = n % 4;
        let p = Self::from_n((self.n() + r) % 4);
        proof {
            vstd::arithmetic::div_mod::lemma_add_mod_noop(self.spec_n(), n as int, 4);
            vstd::arithmetic::div_mod::lemma_mod_twice(self.spec_n() + n, 4);
            vstd::arithmetic::div_mod::lemma_mod_twice(n as int, 4);
        }
        p
    }

    /// The seat before this one, in cyclic order.
    pub open spec fn spec_prev(self) -> PlayerPos {
        PlayerPos::spec_from_n(self.spec_n() + 3)
    }

    /// Returns the previous player.
    pub fn prev(self) -> (p: PlayerPos)
        ensures
            p == self.spec_prev(),
    {
        match self {
            PlayerPos::P0 => PlayerPos::P3,
            PlayerPos::P1 => PlayerPos::P0,
            PlayerPos::P2 => PlayerPos::P1,
            PlayerPos::P3 => PlayerPos::P2,
        }
    }

    /// Returns an iterator that iterates on `n` players, starting with this one.
    pub fn until_n(self, n: usize) -> (it: PlayerIterator)
        ensures
            it.current == self,
            it.remaining == n,
    {
        PlayerIterator { current: self, remaining: n }
    }

    /// The number of turns after `self` needed to reach `other`:
    /// `1` for the next seat, up to `4` for `self` itself.
    pub open spec fn spec_distance_until(self, other: PlayerPos) -> int {
        (3 + other.spec_n() - self.spec_n()) % 4 + 1
    }

    /// Returns the number of turns after `self` to reach `other`.
    pub fn distance_until(self, other: PlayerPos) -> (d: usize)
        ensures
            d == self.spec_distance_until(other),
            1 <= d <= 4,
            other == self.spec_next_n(d as int),
    {
        let d = (3 + other.n() - self.n()) % 4 + 1;
        proof {
            vstd::arithmetic::div_mod::lemma_add_mod_noop(
                self.spec_n(),
                (3 + other.spec_n() - self.spec_n()) % 4 + 1,
                4,
            );
            vstd::arithmetic::div_mod::lemma_mod_twice(3 + other.spec_n() - self.spec_n(), 4);
        }
        d
    }

    /// Returns an iterator until the given player (`self` included, `other`
    /// excluded; all four seats when `other == self`).
    pub fn until(self, other: PlayerPos) -> (it: PlayerIterator)
        ensures
            it.current == self,
            it.remaining == self.spec_distance_until(other),
    {
        let d = self.distance_until(other);
        self.until_n(d)
    }
}

/// Seats reached by advancing fewer than four places from the same seat
/// coincide only for equal counts.
pub proof fn lemma_next_n_injective(p: PlayerPos, a: int, b: int)
    requires
        0 <= a < 4,
        0 <= b < 4,
        p.spec_next_n(a) == p.spec_next_n(b),
    ensures
        a == b,
{
    let pn = p.spec_n();
    vstd::arithmetic::div_mod::lemma_fundamental_div_mod(pn + a, 4);
    vstd::arithmetic::div_mod::lemma_fundamental_div_mod(pn + b, 4);
    assert((pn + a) % 4 == (pn + b) % 4);
}

/// The cyclic distance from `a` to `b` is exactly the count of steps that
/// carries `a` to `b`.
pub proof fn lemma_distance_until_reaches(a: PlayerPos, b: PlayerPos)
    ensures
        1 <= a.spec_distance_until(b) <= 4,
        b == a.spec_next_n(a.spec_distance_until(b)),
{
    vstd::arithmetic::div_mod::lemma_add_mod_noop(
        a.spec_n(),
        (3 + b.spec_n() - a.spec_n()) % 4 + 1,
        4,
    );
    vstd::arithmetic::div_mod::lemma_mod_twice(3 + b.spec_n() - a.spec_n(), 4);
}

/// Advancing `n` places and then one more is advancing `n + 1` places.
pub proof fn lemma_next_n_step(p: PlayerPos, n: int)
    requires
        n >= 0,
    ensures
        p.spec_next_n(n).spec_next() == p.spec_next_n(n + 1),
{
    vstd::arithmetic::div_mod::lemma_add_mod_noop(p.spec_n() + n, 1, 4);
    vstd::arithmetic::div_mod::lemma_mod_twice(p.spec_n() + n, 4);
}

/// Iterates on a span of consecutive players.
pub struct PlayerIterator {
    /// The next seat to be handed out.
    pub current: PlayerPos,
    /// How many seats are still to be handed out.
    pub remaining: usize,
}

impl PlayerIterator {
    /// Hands out the next seat of the span, or `None` once the span is done.
    pub fn next(&mut self) -> (r: Option<PlayerPos>)
        ensures
            old(self).remaining == 0 ==> r is None && *final(self) == *old(self),
            old(self).remaining > 0 ==> r == Some(old(self).current)
                && final(self).current == old(self).current.spec_next() && final(self).remaining
                == old(self).remaining - 1,
    {
        if self.remaining == 0 {
            return None;
        }
        let r = self.current;
        self.current = self.current.next();
        self.remaining = self.remaining - 1;
        Some(r)
    }
}

} // verus!
