//! Voice allocation for a fixed pool of polyphonic voices: finished voices
//! are released, a free voice is preferred, and only when every voice is
//! still sounding is the oldest one stolen.

use vstd::prelude::*;

verus! {

/// The lifecycle that a pool needs to know of a voice: whether it sounds,
/// how many buffers old it is, and whether its sound is over.
pub trait PooledVoice: Sized {
    /// Whether the voice is sounding.
    spec fn spec_sounding(&self) -> bool;

    /// The voice's age, in rendered buffers since its last trigger.
    spec fn spec_age(&self) -> u64;

    /// Whether the voice's sound is over, judged by its age.
    spec fn spec_lifetime_over(&self) -> bool;

    /// The voice after it has been marked as no longer sounding.
    spec fn silenced(self) -> Self;

    /// The voice one buffer older.
    spec fn aged(self) -> Self;

    /// The voice after a new droplet has been triggered on it.
    spec fn triggered(self) -> Self;

    proof fn lemma_silenced(self)
        ensures
            !self.silenced().spec_sounding(),
            self.silenced().spec_age() == self.spec_age(),
    ;

    proof fn lemma_aged(self)
        requires
            self.spec_age() < u64::MAX,
        ensures
            self.aged().spec_sounding() == self.spec_sounding(),
            self.aged().spec_age() == self.spec_age() + 1,
    ;

    proof fn lemma_triggered(self)
        ensures
            self.triggered().spec_sounding(),
            self.triggered().spec_age() == 0,
            !self.triggered().spec_lifetime_over(),
    ;

    fn sounding(&self) -> (r: bool)
        ensures
            r == self.spec_sounding(),
    ;

    fn age_in_buffers(&self) -> (r: u64)
        ensures
            r == self.spec_age(),
    ;

    fn lifetime_over(&self) -> (r: bool)
        ensures
            r == self.spec_lifetime_over(),
    ;

    fn silence(&mut self)
        ensures
            *final(self) == old(self).silenced(),
    ;

    fn age_one(&mut self)
        requires
            old(self).spec_age() < u64::MAX,
        ensures
            *final(self) == old(self).aged(),
    ;

    fn restart(&mut self)
        ensures
            *final(self) == old(self).triggered(),
    ;
}

/// The voice after the release step: a sounding voice whose lifetime is
/// over is silenced, any other voice is left as it is.
pub open spec fn released<V: PooledVoice>(v: V) -> V {
    if v.spec_sounding() && v.spec_lifetime_over() {
        v.silenced()
    } else {
        v
    }
}

/// The pool after the release step.
pub open spec fn released_pool<V: PooledVoice>(pool: Seq<V>) -> Seq<V> {
    Seq::new(pool.len(), |i: int| released(pool[i]))
}

/// The pool after one buffer: every sounding voice is one buffer older.
pub open spec fn ticked_pool<V: PooledVoice>(pool: Seq<V>) -> Seq<V> {
    Seq::new(pool.len(), |i: int| if pool[i].spec_sounding() { pool[i].aged() } else { pool[i] })
}

/// Whether some voice of the pool is not sounding.
pub open spec fn has_idle<V: PooledVoice>(pool: Seq<V>) -> bool {
    exists|i: int| 0 <= i < pool.len() && !#[trigger] pool[i].spec_sounding()
}

/// `r` is the first voice of the pool that is not sounding.
pub open spec fn is_first_idle<V: PooledVoice>(pool: Seq<V>, r: int) -> bool {
    &&& 0 <= r < pool.len()
    &&& !pool[r].spec_sounding()
    &&& forall|j: int| 0 <= j < r ==> #[trigger] pool[j].spec_sounding()
}

/// `r` is the oldest voice of the pool, the last one among equally old ones.
pub open spec fn is_last_oldest<V: PooledVoice>(pool: Seq<V>, r: int) -> bool {
    &&& 0 <= r < pool.len()
    &&& forall|j: int| 0 <= j < pool.len() ==> #[trigger] pool[j].spec_age() <= pool[r].spec_age()
    &&& forall|j: int| r < j < pool.len() ==> #[trigger] pool[j].spec_age() < pool[r].spec_age()
}

/// The voice that allocation picks in a pool that has been released: the
/// first free voice, else the oldest one (the last of equally old ones),
/// and 0 for an empty pool.
pub open spec fn is_allocation_choice<V: PooledVoice>(pool: Seq<V>, r: int) -> bool {
    if pool.len() == 0 {
        r == 0
    } else if has_idle(pool) {
        is_first_idle(pool, r)
    } else {
        is_last_oldest(pool, r)
    }
}

/// Find an available voice, or steal the oldest active one.
///
/// First every sounding voice whose lifetime is over is marked inactive.
/// Then the first inactive voice is returned; when there is none, the
/// oldest voice is returned (the last one among voices of equal age).
/// An empty pool gives 0.
pub fn find_voice<V: PooledVoice>(voices: &mut Vec<V>) -> (r: usize)
    ensures
        final(voices)@ == released_pool(old(voices)@),
        is_allocation_choice(final(voices)@, r as int),
{
    let n = voices.len();
    let mut i: usize = 0;
    while i < n
        invariant
            n == voices@.len(),
            n == old(voices)@.len(),
            i <= n,
            forall|j: int| 0 <= j < i ==> voices@[j] == released(#[trigger] old(voices)@[j]),
            forall|j: int| i <= j < n ==> voices@[j] == #[trigger] old(voices)@[j],
        decreases n - i,
    {
        if voices[i].sounding() && voices[i].lifetime_over() {
            voices[i].silence();
        }
        i = i + 1;
    }
    assert(voices@ =~= released_pool(old(voices)@));

    let mut k: usize = 0;
    while k < n
        invariant
            n == voices@.len(),
            voices@ == released_pool(old(voices)@),
            k <= n,
            forall|j: int| 0 <= j < k ==> #[trigger] voices@[j].spec_sounding(),
        decreases n - k,
    {
        if !voices[k].sounding() {
            return k;
        }
        k = k + 1;
    }
    if n == 0 {
        return 0;
    }
    let mut best: usize = 0;
    let mut best_age: u64 = voices[0].age_in_buffers();
    let mut m: usize = 1;
    while m < n
        invariant
            n == voices@.len(),
            voices@ == released_pool(old(voices)@),
            1 <= m <= n,
            best < m,
            best_age == voices@[best as int].spec_age(),
            forall|j: int| 0 <= j < m ==> #[trigger] voices@[j].spec_age() <= best_age,
            forall|j: int| best < j < m ==> #[trigger] voices@[j].spec_age() < best_age,
        decreases n - m,
    {
        let a = voices[m].age_in_buffers();
        if a >= best_age {
            best = m;
            best_age = a;
        }
        m = m + 1;
    }
    best
}

/// Claim a voice for a new droplet: find a voice as `find_voice` does and
/// mark it triggered. Returns the voice's index. The pool must not be empty.
pub fn claim_voice<V: PooledVoice>(voices: &mut Vec<V>) -> (r: usize)
    requires
        old(voices)@.len() > 0,
    ensures
        r < old(voices)@.len(),
        is_allocation_choice(released_pool(old(voices)@), r as int),
        final(voices)@ == released_pool(old(voices)@).update(r as int, released_pool(old(voices)@)[r as int].triggered()),
{
    let r = find_voice(voices);
    voices[r].restart();
    r
}

/// Update the ages of the sounding voices (once per rendered buffer).
pub fn tick_active<V: PooledVoice>(voices: &mut Vec<V>)
    requires
        forall|j: int|
            0 <= j < old(voices)@.len() && (#[trigger] old(voices)@[j]).spec_sounding()
                ==> old(voices)@[j].spec_age() < u64::MAX,
    ensures
        final(voices)@ == ticked_pool(old(voices)@),
{
    let n = voices.len();
    let mut i: usize = 0;
    while i < n
        invariant
            n == voices@.len(),
            n == old(voices)@.len(),
            i <= n,
            forall|j: int|
                0 <= j < n && (#[trigger] old(voices)@[j]).spec_sounding()
                    ==> old(voices)@[j].spec_age() < u64::MAX,
            forall|j: int|
                0 <= j < i ==> voices@[j] == (if (#[trigger] old(voices)@[j]).spec_sounding() {
                    old(voices)@[j].aged()
                } else {
                    old(voices)@[j]
                }),
            forall|j: int| i <= j < n ==> voices@[j] == #[trigger] old(voices)@[j],
        decreases n - i,
    {
        if voices[i].sounding() {
            assert(voices@[i as int] == old(voices)@[i as int]);
            voices[i].age_one();
        }
        i = i + 1;
    }
    assert(voices@ =~= ticked_pool(old(voices)@));
}

} // verus!

verus! {

/// The voice after `n` buffers of sounding.
pub open spec fn aged_by<V: PooledVoice>(v: V, n: nat) -> V
    decreases n,
{
    if n == 0 {
        v
    } else {
        aged_by(v, (n - 1) as nat).aged()
    }
}

/// Ageing a voice by `n` buffers adds `n` to its age and keeps it sounding.
pub proof fn lemma_aged_by<V: PooledVoice>(v: V, n: nat)
    requires
        v.spec_age() + n <= u64::MAX,
    ensures
        aged_by(v, n).spec_age() == v.spec_age() + n,
        aged_by(v, n).spec_sounding() == v.spec_sounding(),
    decreases n,
{
    if n > 0 {
        lemma_aged_by(v, (n - 1) as nat);
        aged_by(v, (n - 1) as nat).lemma_aged();
    }
}

/// After the release step no voice is still sounding with its lifetime
/// over, and every voice keeps its age.
pub proof fn lemma_release_leaves_no_finished_voice<V: PooledVoice>(pool: Seq<V>)
    ensures
        released_pool(pool).len() == pool.len(),
        forall|i: int|
            0 <= i < pool.len() ==> !(#[trigger] released_pool(pool)[i].spec_sounding()
                && released_pool(pool)[i].spec_lifetime_over()),
        forall|i: int| 0 <= i < pool.len() ==> #[trigger] released_pool(pool)[i].spec_age() == pool[i].spec_age(),
{
    assert forall|i: int|
        0 <= i < pool.len() implies !(#[trigger] released_pool(pool)[i].spec_sounding()
        && released_pool(pool)[i].spec_lifetime_over()) by {
        pool[i].lemma_silenced();
    }
    assert forall|i: int|
        0 <= i < pool.len() implies #[trigger] released_pool(pool)[i].spec_age() == pool[i].spec_age() by {
        pool[i].lemma_silenced();
    }
}

/// Releasing a pool that has just been released changes nothing.
pub proof fn lemma_release_idempotent<V: PooledVoice>(pool: Seq<V>)
    ensures
        released_pool(released_pool(pool)) == released_pool(pool),
{
    assert forall|i: int| 0 <= i < pool.len() implies #[trigger] released(released(pool[i])) == released(
        pool[i],
    ) by {
        pool[i].lemma_silenced();
    }
    assert(released_pool(released_pool(pool)) =~= released_pool(pool));
}

/// A pool has exactly one allocation choice.
pub proof fn lemma_allocation_choice_unique<V: PooledVoice>(pool: Seq<V>, r1: int, r2: int)
    requires
        is_allocation_choice(pool, r1),
        is_allocation_choice(pool, r2),
    ensures
        r1 == r2,
{
    if pool.len() > 0 && has_idle(pool) {
        if r1 < r2 {
            assert(pool[r1].spec_sounding());
        }
        if r2 < r1 {
            assert(pool[r2].spec_sounding());
        }
    } else if pool.len() > 0 {
        if r1 < r2 {
            assert(pool[r2].spec_age() < pool[r1].spec_age());
            assert(pool[r2].spec_age() <= pool[r1].spec_age());
            assert(pool[r1].spec_age() <= pool[r2].spec_age());
        }
        if r2 < r1 {
            assert(pool[r1].spec_age() < pool[r2].spec_age());
            assert(pool[r2].spec_age() <= pool[r1].spec_age());
        }
    }
}

/// Looking for a voice twice in a row, with nothing triggered in between,
/// gives the same voice, and the second search changes nothing.
pub proof fn lemma_find_voice_twice<V: PooledVoice>(pool: Seq<V>, r1: int, r2: int)
    requires
        is_allocation_choice(released_pool(pool), r1),
        is_allocation_choice(released_pool(released_pool(pool)), r2),
    ensures
        released_pool(released_pool(pool)) == released_pool(pool),
        r1 == r2,
{
    lemma_release_idempotent(pool);
    lemma_allocation_choice_unique(released_pool(pool), r1, r2);
}

/// A sounding voice whose lifetime is not over is taken only when every
/// voice of the pool is such a voice: as long as some voice is silent or
/// finished, the voice chosen is one of those.
pub proof fn lemma_steals_only_when_all_busy<V: PooledVoice>(pool: Seq<V>, r: int)
    requires
        is_allocation_choice(released_pool(pool), r),
        exists|i: int|
            0 <= i < pool.len() && (!(#[trigger] pool[i]).spec_sounding() || pool[i].spec_lifetime_over()),
    ensures
        0 <= r < pool.len(),
        !pool[r].spec_sounding() || pool[r].spec_lifetime_over(),
        !released_pool(pool)[r].spec_sounding(),
{
    let i = choose|i: int|
        0 <= i < pool.len() && (!(#[trigger] pool[i]).spec_sounding() || pool[i].spec_lifetime_over());
    pool[i].lemma_silenced();
    assert(!released_pool(pool)[i].spec_sounding());
    assert(has_idle(released_pool(pool)));
    pool[r].lemma_silenced();
}

/// When every voice is still sounding after the release step, the voice
/// taken is at least as old as every other voice, and strictly older than
/// every voice after it.
pub proof fn lemma_steals_oldest<V: PooledVoice>(pool: Seq<V>, r: int)
    requires
        is_allocation_choice(released_pool(pool), r),
        pool.len() > 0,
        !has_idle(released_pool(pool)),
    ensures
        0 <= r < pool.len(),
        released_pool(pool)[r].spec_sounding(),
        forall|j: int| 0 <= j < pool.len() ==> #[trigger] pool[j].spec_age() <= pool[r].spec_age(),
        forall|j: int| r < j < pool.len() ==> #[trigger] pool[j].spec_age() < pool[r].spec_age(),
{
    lemma_release_leaves_no_finished_voice(pool);
    assert forall|j: int| 0 <= j < pool.len() implies #[trigger] pool[j].spec_age() <= pool[r].spec_age() by {
        assert(released_pool(pool)[j].spec_age() <= released_pool(pool)[r].spec_age());
    }
    assert forall|j: int| r < j < pool.len() implies #[trigger] pool[j].spec_age() < pool[r].spec_age() by {
        assert(released_pool(pool)[j].spec_age() < released_pool(pool)[r].spec_age());
    }
    if !released_pool(pool)[r].spec_sounding() {
        assert(has_idle(released_pool(pool)));
    }
}

/// One buffer ages every sounding voice by one and leaves silent voices as
/// they are; which voices sound does not change.
pub proof fn lemma_tick_ages_sounding_voices<V: PooledVoice>(pool: Seq<V>)
    requires
        forall|j: int|
            0 <= j < pool.len() && (#[trigger] pool[j]).spec_sounding() ==> pool[j].spec_age() < u64::MAX,
    ensures
        ticked_pool(pool).len() == pool.len(),
        forall|i: int|
            0 <= i < pool.len() ==> (#[trigger] ticked_pool(pool)[i]).spec_sounding() == pool[i].spec_sounding(),
        forall|i: int|
            0 <= i < pool.len() && pool[i].spec_sounding() ==> (#[trigger] ticked_pool(pool)[i]).spec_age()
                == pool[i].spec_age() + 1,
        forall|i: int| 0 <= i < pool.len() && !pool[i].spec_sounding() ==> #[trigger] ticked_pool(pool)[i] == pool[i],
{
    assert forall|i: int| 0 <= i < pool.len() implies (#[trigger] ticked_pool(pool)[i]).spec_sounding()
        == pool[i].spec_sounding() && (pool[i].spec_sounding() ==> ticked_pool(pool)[i].spec_age()
        == pool[i].spec_age() + 1) by {
        if pool[i].spec_sounding() {
            pool[i].lemma_aged();
        }
    }
}

/// A claimed voice sounds from the start (age 0); every other voice is
/// left as the release step left it.
pub proof fn lemma_claimed_voice_starts<V: PooledVoice>(pool: Seq<V>, r: int)
    requires
        is_allocation_choice(released_pool(pool), r),
        pool.len() > 0,
    ensures
        0 <= r < pool.len(),
        released_pool(pool).update(r, released_pool(pool)[r].triggered())[r].spec_sounding(),
        released_pool(pool).update(r, released_pool(pool)[r].triggered())[r].spec_age() == 0,
        forall|j: int|
            0 <= j < pool.len() && j != r ==> #[trigger] released_pool(pool).update(
                r,
                released_pool(pool)[r].triggered(),
            )[j] == released(pool[j]),
{
    released_pool(pool)[r].lemma_triggered();
}

/// Several taps in a row each get a voice of their own: right after a
/// claim, the next claim takes another voice whenever a free or finished
/// voice remains.
pub proof fn lemma_consecutive_claims_distinct<V: PooledVoice>(pool: Seq<V>, r1: int, r2: int)
    requires
        pool.len() > 0,
        is_allocation_choice(released_pool(pool), r1),
        is_allocation_choice(
            released_pool(released_pool(pool).update(r1, released_pool(pool)[r1].triggered())),
            r2,
        ),
        exists|i: int|
            0 <= i < pool.len() && i != r1 && (!(#[trigger] pool[i]).spec_sounding()
                || pool[i].spec_lifetime_over()),
    ensures
        r1 != r2,
{
    let p1 = released_pool(pool).update(r1, released_pool(pool)[r1].triggered());
    let i = choose|i: int|
        0 <= i < pool.len() && i != r1 && (!(#[trigger] pool[i]).spec_sounding()
            || pool[i].spec_lifetime_over());
    released_pool(pool)[r1].lemma_triggered();
    pool[i].lemma_silenced();
    assert(p1[i] == released(pool[i]));
    released(pool[i]).lemma_silenced();
    assert(!released_pool(p1)[i].spec_sounding());
    assert(has_idle(released_pool(p1)));
    assert(released_pool(p1)[r1] == p1[r1]);
    assert(released_pool(p1)[r1].spec_sounding());
}

} // verus!
