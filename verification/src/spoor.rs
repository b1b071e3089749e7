//! Audit records ("spoors") and the bounded journal that keeps them.
//!
//! A [`Spoor`] records one decision at a kernel boundary: what kind of event
//! it was, who acted, what was done, how it came out, and two payload words
//! (the target task index and a cost or reason value). It packs losslessly
//! into one `u64`, and [`Spoor::decode`] accepts exactly the words that
//! [`Spoor::to_bits`] produces.

use vstd::prelude::*;

verus! {

/// The kind of boundary a spoor records.
#[derive(Debug, Clone, Copy, PartialEq, Eq, Structural)]
pub enum Category {
    /// A captured fault and its disposition.
    Fault,
    /// A priority-inheritance lock event.
    Lock,
    /// An actuation command or deadline event.
    Actuation,
}

/// Who acted.
#[derive(Debug, Clone, Copy, PartialEq, Eq, Structural)]
pub enum Actor {
    /// The kernel itself.
    Kernel,
}

/// What was done.
#[derive(Debug, Clone, Copy, PartialEq, Eq, Structural)]
pub enum Action {
    /// A fault was captured.
    Fault,
    /// A disposition was taken on a fault.
    Terminate,
    /// A lock holder was boosted.
    Boost,
    /// A lock holder's priority was restored.
    Restore,
    /// A command was presented at an actuator.
    Actuate,
    /// A declared deadline passed.
    Deadline,
}

/// How it came out.
#[derive(Debug, Clone, Copy, PartialEq, Eq, Structural)]
pub enum Outcome {
    /// The action took place as intended.
    Success,
    /// The action did not take place, or what prompted it was a failure.
    Failed,
    /// A declared bound was enforced.
    Capped,
}

/// One audit record.
#[derive(Debug, Clone, Copy, PartialEq, Eq, Structural)]
pub struct Spoor {
    /// The kind of boundary.
    pub category: Category,
    /// Who acted.
    pub who: Actor,
    /// What was done.
    pub action: Action,
    /// How it came out.
    pub outcome: Outcome,
    /// The task index the record is about.
    pub target: u16,
    /// A cost or reason value.
    pub cost: u32,
}

/// The four-bit code of a category (zero is never a valid code).
pub open spec fn category_code(c: Category) -> u64 {
    match c {
        Category::Fault => 1,
        Category::Lock => 2,
        Category::Actuation => 3,
    }
}

/// The four-bit code of an actor.
pub open spec fn actor_code(a: Actor) -> u64 {
    match a {
        Actor::Kernel => 1,
    }
}

/// The four-bit code of an action.
pub open spec fn action_code(a: Action) -> u64 {
    match a {
        Action::Fault => 1,
        Action::Terminate => 2,
        Action::Boost => 3,
        Action::Restore => 4,
        Action::Actuate => 5,
        Action::Deadline => 6,
    }
}

/// The four-bit code of an outcome.
pub open spec fn outcome_code(o: Outcome) -> u64 {
    match o {
        Outcome::Success => 1,
        Outcome::Failed => 2,
        Outcome::Capped => 3,
    }
}

/// The category a code names, if any.
pub open spec fn category_of(code: u64) -> Option<Category> {
    if code == 1 {
        Some(Category::Fault)
    } else if code == 2 {
        Some(Category::Lock)
    } else if code == 3 {
        Some(Category::Actuation)
    } else {
        None
    }
}

/// The actor a code names, if any.
pub open spec fn actor_of(code: u64) -> Option<Actor> {
    if code == 1 {
        Some(Actor::Kernel)
    } else {
        None
    }
}

/// The action a code names, if any.
pub open spec fn action_of(code: u64) -> Option<Action> {
    if code == 1 {
        Some(Action::Fault)
    } else if code == 2 {
        Some(Action::Terminate)
    } else if code == 3 {
        Some(Action::Boost)
    } else if code == 4 {
        Some(Action::Restore)
    } else if code == 5 {
        Some(Action::Actuate)
    } else if code == 6 {
        Some(Action::Deadline)
    } else {
        None
    }
}

/// The outcome a code names, if any.
pub open spec fn outcome_of(code: u64) -> Option<Outcome> {
    if code == 1 {
        Some(Outcome::Success)
    } else if code == 2 {
        Some(Outcome::Failed)
    } else if code == 3 {
        Some(Outcome::Capped)
    } else {
        None
    }
}

/// The packed word: category in bits 0-3, actor in 4-7, action in 8-11,
/// outcome in 12-15, target in 16-31 and cost in 32-63.
pub open spec fn pack(c: u64, a: u64, act: u64, o: u64, target: u16, cost: u32) -> u64 {
    c | (a << 4u64) | (act << 8u64) | (o << 12u64) | ((target as u64) << 16u64) | ((cost as u64)
        << 32u64)
}

/// The word a spoor packs into.
pub open spec fn spoor_bits(s: Spoor) -> u64 {
    pack(
        category_code(s.category),
        actor_code(s.who),
        action_code(s.action),
        outcome_code(s.outcome),
        s.target,
        s.cost,
    )
}

/// The spoor a word decodes to: `None` unless every code field names a
/// value.
pub open spec fn decoded(bits: u64) -> Option<Spoor> {
    let c = category_of(bits & 0xfu64);
    let a = actor_of((bits >> 4u64) & 0xfu64);
    let act = action_of((bits >> 8u64) & 0xfu64);
    let o = outcome_of((bits >> 12u64) & 0xfu64);
    if c is Some && a is Some && act is Some && o is Some {
        Some(
            Spoor {
                category: c->Some_0,
                who: a->Some_0,
                action: act->Some_0,
                outcome: o->Some_0,
                target: ((bits >> 16u64) & 0xffffu64) as u16,
                cost: (bits >> 32u64) as u32,
            },
        )
    } else {
        None
    }
}

/// Field extraction from a packed word gives back every packed field.
proof fn lemma_unpack(c: u64, a: u64, act: u64, o: u64, target: u16, cost: u32)
    requires
        c < 16,
        a < 16,
        act < 16,
        o < 16,
    ensures
        pack(c, a, act, o, target, cost) & 0xfu64 == c,
        (pack(c, a, act, o, target, cost) >> 4u64) & 0xfu64 == a,
        (pack(c, a, act, o, target, cost) >> 8u64) & 0xfu64 == act,
        (pack(c, a, act, o, target, cost) >> 12u64) & 0xfu64 == o,
        ((pack(c, a, act, o, target, cost) >> 16u64) & 0xffffu64) as u16 == target,
        (pack(c, a, act, o, target, cost) >> 32u64) as u32 == cost,
{
    let w = pack(c, a, act, o, target, cost);
    assert(w == c | (a << 4u64) | (act << 8u64) | (o << 12u64) | ((target as u64) << 16u64) | ((
    cost as u64) << 32u64));
    assert((c | (a << 4u64) | (act << 8u64) | (o << 12u64) | ((target as u64) << 16u64) | ((
    cost as u64) << 32u64)) & 0xfu64 == c) by (bit_vector)
        requires
            c < 16,
            a < 16,
            act < 16,
            o < 16,
    ;
    assert(((c | (a << 4u64) | (act << 8u64) | (o << 12u64) | ((target as u64) << 16u64) | ((
    cost as u64) << 32u64)) >> 4u64) & 0xfu64 == a) by (bit_vector)
        requires
            c < 16,
            a < 16,
            act < 16,
            o < 16,
    ;
    assert(((c | (a << 4u64) | (act << 8u64) | (o << 12u64) | ((target as u64) << 16u64) | ((
    cost as u64) << 32u64)) >> 8u64) & 0xfu64 == act) by (bit_vector)
        requires
            c < 16,
            a < 16,
            act < 16,
            o < 16,
    ;
    assert(((c | (a << 4u64) | (act << 8u64) | (o << 12u64) | ((target as u64) << 16u64) | ((
    cost as u64) << 32u64)) >> 12u64) & 0xfu64 == o) by (bit_vector)
        requires
            c < 16,
            a < 16,
            act < 16,
            o < 16,
    ;
    assert((((c | (a << 4u64) | (act << 8u64) | (o << 12u64) | ((target as u64) << 16u64) | ((
    cost as u64) << 32u64)) >> 16u64) & 0xffffu64) as u16 == target) by (bit_vector)
        requires
            c < 16,
            a < 16,
            act < 16,
            o < 16,
    ;
    assert(((c | (a << 4u64) | (act << 8u64) | (o << 12u64) | ((target as u64) << 16u64) | ((
    cost as u64) << 32u64)) >> 32u64) as u32 == cost) by (bit_vector)
        requires
            c < 16,
            a < 16,
            act < 16,
            o < 16,
    ;
}

/// Every word is the packing of its own fields.
proof fn lemma_repack(w: u64)
    ensures
        w == pack(
            w & 0xfu64,
            (w >> 4u64) & 0xfu64,
            (w >> 8u64) & 0xfu64,
            (w >> 12u64) & 0xfu64,
            ((w >> 16u64) & 0xffffu64) as u16,
            (w >> 32u64) as u32,
        ),
{
    assert(w == (w & 0xfu64) | (((w >> 4u64) & 0xfu64) << 4u64) | (((w >> 8u64) & 0xfu64) << 8u64)
        | (((w >> 12u64) & 0xfu64) << 12u64) | (((((w >> 16u64) & 0xffffu64) as u16) as u64)
        << 16u64) | ((((w >> 32u64) as u32) as u64) << 32u64)) by (bit_vector);
}

/// Decoding a stamped spoor's word gives the spoor back.
pub proof fn lemma_decode_inverts_encode(s: Spoor)
    ensures
        decoded(spoor_bits(s)) == Some(s),
{
    lemma_unpack(
        category_code(s.category),
        actor_code(s.who),
        action_code(s.action),
        outcome_code(s.outcome),
        s.target,
        s.cost,
    );
}

/// The encoding is canonical: a word that decodes is exactly the word of
/// the spoor it decodes to, so no two words decode to the same spoor.
pub proof fn lemma_encode_inverts_decode(bits: u64)
    ensures
        decoded(bits) matches Some(s) ==> spoor_bits(s) == bits,
{
    lemma_repack(bits);
}

impl Spoor {
    /// Stamps a record.
    pub fn stamp(
        category: Category,
        who: Actor,
        action: Action,
        outcome: Outcome,
        target: u16,
        cost: u32,
    ) -> (s: Spoor)
        ensures
            s == (Spoor { category, who, action, outcome, target, cost }),
    {
        Spoor { category, who, action, outcome, target, cost }
    }

    /// The kind of boundary.
    pub fn category(&self) -> (r: Category)
        ensures
            r == self.category,
    {
        self.category
    }

    /// Who acted.
    pub fn who(&self) -> (r: Actor)
        ensures
            r == self.who,
    {
        self.who
    }

    /// What was done.
    pub fn action(&self) -> (r: Action)
        ensures
            r == self.action,
    {
        self.action
    }

    /// How it came out.
    pub fn outcome(&self) -> (r: Outcome)
        ensures
            r == self.outcome,
    {
        self.outcome
    }

    /// The task index the record is about.
    pub fn target(&self) -> (r: u16)
        ensures
            r == self.target,
    {
        self.target
    }

    /// The cost or reason value.
    pub fn cost(&self) -> (r: u32)
        ensures
            r == self.cost,
    {
        self.cost
    }

    /// This record packed into one word.
    pub fn to_bits(&self) -> (bits: u64)
        ensures
            bits == spoor_bits(*self),
    {
        let c: u64 = match self.category {
            Category::Fault => 1,
            Category::Lock => 2,
            Category::Actuation => 3,
        };
        let a: u64 = match self.who {
            Actor::Kernel => 1,
        };
        let act: u64 = match self.action {
            Action::Fault => 1,
            Action::Terminate => 2,
            Action::Boost => 3,
            Action::Restore => 4,
            Action::Actuate => 5,
            Action::Deadline => 6,
        };
        let o: u64 = match self.outcome {
            Outcome::Success => 1,
            Outcome::Failed => 2,
            Outcome::Capped => 3,
        };
        c | (a << 4u64) | (act << 8u64) | (o << 12u64) | ((self.target as u64) << 16u64) | ((
        self.cost as u64) << 32u64)
    }

    /// The record a word packs, or `None` when a code field names nothing.
    pub fn decode(bits: u64) -> (r: Option<Spoor>)
        ensures
            r == decoded(bits),
    {
        let category = match bits & 0xfu64 {
            1 => Category::Fault,
            2 => Category::Lock,
            3 => Category::Actuation,
            _ => return None,
        };
        let who = match (bits >> 4u64) & 0xfu64 {
            1 => Actor::Kernel,
            _ => return None,
        };
        let action = match (bits >> 8u64) & 0xfu64 {
            1 => Action::Fault,
            2 => Action::Terminate,
            3 => Action::Boost,
            4 => Action::Restore,
            5 => Action::Actuate,
            6 => Action::Deadline,
            _ => return None,
        };
        let outcome = match (bits >> 12u64) & 0xfu64 {
            1 => Outcome::Success,
            2 => Outcome::Failed,
            3 => Outcome::Capped,
            _ => return None,
        };
        Some(
            Spoor {
                category,
                who,
                action,
                outcome,
                target: ((bits >> 16u64) & 0xffffu64) as u16,
                cost: (bits >> 32u64) as u32,
            },
        )
    }
}

/// What a journal of capacity `capacity` holds after `s` is appended to
/// one holding `before`: the newest `capacity` records, oldest first.
pub open spec fn recorded(before: Seq<Spoor>, capacity: usize, s: Spoor) -> Seq<Spoor> {
    let all = before.push(s);
    if all.len() <= capacity {
        all
    } else {
        all.subrange(all.len() - capacity, all.len() as int)
    }
}

/// A fixed-capacity journal of spoors: a ring of `J` records that, once
/// full, overwrites its oldest record with each new one.
pub struct SpoorJournal<const J: usize> {
    slots: Vec<Spoor>,
    head: usize,
}

impl<const J: usize> SpoorJournal<J> {
    /// The ring's invariant: at most `J` slots, and `head` (the oldest
    /// record once the ring is full) inside them.
    pub closed spec fn well_formed(&self) -> bool {
        &&& self.slots@.len() <= J
        &&& self.head <= self.slots@.len()
        &&& (self.slots@.len() < J ==> self.head == 0)
        &&& (self.slots@.len() == J && J > 0 ==> self.head < J)
    }
}

impl<const J: usize> View for SpoorJournal<J> {
    type V = Seq<Spoor>;

    /// The kept records, oldest first.
    closed spec fn view(&self) -> Seq<Spoor> {
        self.slots@.subrange(self.head as int, self.slots@.len() as int) + self.slots@.subrange(
            0,
            self.head as int,
        )
    }
}

impl<const J: usize> SpoorJournal<J> {
    /// An empty journal.
    pub fn new() -> (j: Self)
        ensures
            j.well_formed(),
            j@ == Seq::<Spoor>::empty(),
    {
        let j = SpoorJournal { slots: Vec::new(), head: 0 };
        assert(j@ =~= Seq::<Spoor>::empty());
        j
    }

    /// Appends `spoor`; a full journal overwrites its oldest record.
    pub fn append(&mut self, spoor: Spoor)
        requires
            old(self).well_formed(),
        ensures
            final(self).well_formed(),
            final(self)@ == recorded(old(self)@, J, spoor),
    {
        let ghost before = self@;
        if J == 0 {
            assert(self.slots@.len() == 0);
            assert(before =~= Seq::<Spoor>::empty());
            assert(before.push(spoor).subrange(1, 1) =~= before);
            return;
        }
        if self.slots.len() < J {
            self.slots.push(spoor);
            assert(self@ =~= before.push(spoor));
        } else {
            let head = self.head;
            self.slots.set(head, spoor);
            self.head = if head + 1 == J {
                0
            } else {
                head + 1
            };
            assert(self@ =~= before.push(spoor).subrange(1, J as int + 1));
        }
    }

    /// The kept records, oldest first.
    pub fn entries(&self) -> (r: Vec<Spoor>)
        requires
            self.well_formed(),
        ensures
            r@ == self@,
    {
        let mut out: Vec<Spoor> = Vec::new();
        let n: usize = self.slots.len();
        let mut k: usize = self.head;
        assert(out@ =~= self.slots@.subrange(self.head as int, k as int));
        while k < n
            invariant
                self.head <= k <= n,
                n == self.slots@.len(),
                out@ == self.slots@.subrange(self.head as int, k as int),
            decreases n - k,
        {
            out.push(self.slots[k]);
            k = k + 1;
            assert(out@ =~= self.slots@.subrange(self.head as int, k as int));
        }
        let mut k: usize = 0;
        assert(out@ =~= self.slots@.subrange(self.head as int, n as int) + self.slots@.subrange(0, 0));
        while k < self.head
            invariant
                k <= self.head <= n,
                n == self.slots@.len(),
                out@ == self.slots@.subrange(self.head as int, n as int) + self.slots@.subrange(
                    0,
                    k as int,
                ),
            decreases self.head - k,
        {
            out.push(self.slots[k]);
            k = k + 1;
            assert(out@ =~= self.slots@.subrange(self.head as int, n as int) + self.slots@.subrange(
                0,
                k as int,
            ));
        }
        out
    }

    /// How many records are kept.
    pub fn len(&self) -> (r: usize)
        requires
            self.well_formed(),
        ensures
            r == self@.len(),
    {
        self.slots.len()
    }

    /// Whether no record is kept.
    pub fn is_empty(&self) -> (r: bool)
        requires
            self.well_formed(),
        ensures
            r == (self@.len() == 0),
    {
        self.slots.len() == 0
    }
}

} // verus!
