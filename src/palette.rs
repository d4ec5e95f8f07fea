use vstd::prelude::*;
use crate::field::{key_slot_index, role_index, Field};

verus! {

/// A colour as red, green and blue channels.
#[derive(Clone, Copy, Debug, PartialEq, Eq, Structural)]
pub struct Rgb {
    pub r: u8,
    pub g: u8,
    pub b: u8,
}

/// Seed of the shuffle that spreads the palette; fixed so that every run agrees.
pub const SHUFFLE_SEED: u64 = 0x2545_f491;

/// Modulus of the linear congruential generator that drives the shuffle.
pub const LCG_MODULUS: u64 = 0x8000_0000;

pub const LCG_MULTIPLIER: u64 = 1103515245;

pub const LCG_INCREMENT: u64 = 12345;

/// Distance between consecutive candidates on the cube's diagonal walk.
pub open spec fn color_step(n: nat) -> nat {
    if n == 0 {
        0
    } else {
        256nat / n
    }
}

/// The `i`-th of `n` candidate colours, before shuffling.
pub open spec fn candidate(n: nat, i: nat) -> Rgb {
    let s = color_step(n);
    Rgb {
        r: ((i * s) % 256) as u8,
        g: ((i * s + 85) % 256) as u8,
        b: ((i * s + 170) % 256) as u8,
    }
}

pub open spec fn candidates(n: nat) -> Seq<Rgb> {
    Seq::new(n, |i: int| candidate(n, i as nat))
}

pub open spec fn lcg_next(state: nat) -> nat {
    ((state * (LCG_MULTIPLIER as nat) + (LCG_INCREMENT as nat)) % (LCG_MODULUS as nat)) as nat
}

/// Index drawn for position `top` from a generator state.
pub open spec fn draw(state: nat, top: nat) -> nat {
    ((state / 65536) % (top + 1)) as nat
}

pub open spec fn swap(s: Seq<Rgb>, i: int, j: int) -> Seq<Rgb> {
    s.update(i, s[j]).update(j, s[i])
}

/// Fisher-Yates passes over positions `top` down to 1.
pub open spec fn shuffle_from(s: Seq<Rgb>, state: nat, top: nat) -> Seq<Rgb>
    decreases top,
{
    if top == 0 {
        s
    } else {
        let next = lcg_next(state);
        shuffle_from(swap(s, top as int, draw(next, top) as int), next, (top - 1) as nat)
    }
}

/// The palette of `n` colours: the candidates in seeded shuffled order.
pub open spec fn palette(n: nat) -> Seq<Rgb> {
    if n == 0 {
        Seq::empty()
    } else {
        shuffle_from(candidates(n), SHUFFLE_SEED as nat, (n - 1) as nat)
    }
}

proof fn lemma_swap_multiset(s: Seq<Rgb>, i: int, j: int)
    requires
        0 <= i < s.len(),
        0 <= j < s.len(),
    ensures
        swap(s, i, j).to_multiset() == s.to_multiset(),
{
    broadcast use vstd::seq_lib::to_multiset_update;
    broadcast use vstd::multiset::group_multiset_axioms;

    let s1 = s.update(i, s[j]);
    assert(s1.to_multiset() == s.to_multiset().insert(s[j]).remove(s[i]));
    assert(s1[j] == s[j]);
    assert(s1.update(j, s[i]).to_multiset() == s1.to_multiset().insert(s[i]).remove(s[j]));
    let m = s.to_multiset();
    assert(s.contains(s[i]));
    vstd::seq_lib::to_multiset_contains(s, s[i]);
    assert(m.count(s[i]) > 0);
    assert(m.insert(s[j]).remove(s[i]).insert(s[i]).remove(s[j]) =~= m);
}

fn candidate_at(n: usize, step: usize, i: usize) -> (c: Rgb)
    requires
        0 < n,
        i < n,
        step as nat == color_step(n as nat),
    ensures
        c == candidate(n as nat, i as nat),
{
    let base: usize = if n <= 256 {
        assert(step <= 256) by {
            assert(256int / (n as int) <= 256) by (nonlinear_arith)
                requires
                    0 < n,
            ;
        }
        assert(i * step <= 256 * 256) by (nonlinear_arith)
            requires
                i < 256,
                step <= 256,
        ;
        i * step
    } else {
        assert(step == 0) by {
            vstd::arithmetic::div_mod::lemma_basic_div(256, n as int);
        }
        assert(i * step == 0) by (nonlinear_arith)
            requires
                step == 0,
        ;
        0
    };
    Rgb { r: (base % 256) as u8, g: ((base + 85) % 256) as u8, b: ((base + 170) % 256) as u8 }
}

/// `n` colours spread over the RGB cube, in an order that depends on `n` alone.
pub fn generate(n: usize) -> (r: Vec<Rgb>)
    ensures
        r@ == palette(n as nat),
        r@.len() == n,
        r@.to_multiset() == candidates(n as nat).to_multiset(),
{
    let mut v: Vec<Rgb> = Vec::new();
    if n == 0 {
        assert(v@ =~= candidates(0));
        return v;
    }
    let step: usize = 256 / n;
    let mut i: usize = 0;
    while i < n
        invariant
            0 < n,
            i <= n,
            step as nat == color_step(n as nat),
            v@ =~= candidates(n as nat).take(i as int),
        decreases n - i,
    {
        let c = candidate_at(n, step, i);
        v.push(c);
        i += 1;
    }
    assert(v@ =~= candidates(n as nat));
    let mut state: u64 = SHUFFLE_SEED;
    let mut top: usize = n - 1;
    while top > 0
        invariant
            top < n,
            v@.len() == n,
            state < LCG_MODULUS,
            shuffle_from(v@, state as nat, top as nat) == palette(n as nat),
            v@.to_multiset() == candidates(n as nat).to_multiset(),
        decreases top,
    {
        assert(state * LCG_MULTIPLIER < 0x8000_0000 * 1103515245) by (nonlinear_arith)
            requires
                state < 0x8000_0000,
        ;
        state = (state * LCG_MULTIPLIER + LCG_INCREMENT) % LCG_MODULUS;
        let j: usize = ((state / 65536) % (top as u64 + 1)) as usize;
        let a = v[top];
        let b = v[j];
        let ghost before = v@;
        v[top] = b;
        v[j] = a;
        proof {
            assert(v@ =~= swap(before, top as int, j as int));
            lemma_swap_multiset(before, top as int, j as int);
        }
        top -= 1;
    }
    v
}

/// Two palettes generated for the same size hold the same colours in the same
/// order: what `generate` returns depends on its argument alone.
pub proof fn lemma_palette_deterministic(n: nat, first: Seq<Rgb>, second: Seq<Rgb>)
    requires
        first == palette(n),
        second == palette(n),
    ensures
        first == second,
        first.len() == n,
{
    if n > 0 {
        lemma_shuffle_len(candidates(n), SHUFFLE_SEED as nat, (n - 1) as nat);
    }
}

proof fn lemma_shuffle_len(s: Seq<Rgb>, state: nat, top: nat)
    requires
        top < s.len(),
    ensures
        shuffle_from(s, state, top).len() == s.len(),
    decreases top,
{
    if top > 0 {
        let next = lcg_next(state);
        let j = draw(next, top);
        vstd::arithmetic::div_mod::lemma_mod_bound((next / 65536) as int, (top + 1) as int);
        lemma_shuffle_len(swap(s, top as int, j as int), next, (top - 1) as nat);
    }
}

/// Number of colours bound to structural roles, at the head of the palette.
pub const ROLE_COUNT: usize = 17;

/// Number of colours in the palette that a colour set draws from.
pub const PALETTE_SIZE: usize = 60;

/// Colour of a key-tied field whose key position has no colour of its own.
pub open spec fn neutral_color() -> Rgb {
    Rgb { r: 255, g: 255, b: 255 }
}

/// Colour of the count of static account keys.
pub open spec fn key_count_color() -> Rgb {
    Rgb { r: 255, g: 255, b: 0 }
}

/// The colours of the decomposition: one per structural role, then one per
/// account key position.
pub struct ColorSet {
    pub roles: Vec<Rgb>,
    pub key_slots: Vec<Rgb>,
}

impl ColorSet {
    pub open spec fn wf(&self) -> bool {
        self.roles@.len() == ROLE_COUNT
    }

    /// The colour of key position `i`, or the neutral colour past the last slot.
    pub open spec fn key_slot(&self, i: nat) -> Rgb {
        if i < self.key_slots@.len() {
            self.key_slots@[i as int]
        } else {
            neutral_color()
        }
    }

    /// The colour that a field's bytes are drawn in.
    pub open spec fn field_color(&self, f: Field) -> Rgb {
        match role_index(f) {
            Some(k) => self.roles@[k as int],
            None => match key_slot_index(f) {
                Some(i) => self.key_slot(i),
                None => key_count_color(),
            },
        }
    }

    /// The colour set of the fixed palette: its first colours go to the roles,
    /// the rest to key positions.
    pub fn new() -> (r: Self)
        ensures
            r.wf(),
            r.roles@ == palette(PALETTE_SIZE as nat).take(ROLE_COUNT as int),
            r.key_slots@ == palette(PALETTE_SIZE as nat).skip(ROLE_COUNT as int),
    {
        let all = generate(PALETTE_SIZE);
        let mut roles: Vec<Rgb> = Vec::new();
        let mut key_slots: Vec<Rgb> = Vec::new();
        let mut i: usize = 0;
        while i < PALETTE_SIZE
            invariant
                i <= PALETTE_SIZE,
                all@ == palette(PALETTE_SIZE as nat),
                all@.len() == PALETTE_SIZE,
                roles@ =~= all@.take(if i < ROLE_COUNT { i as int } else { ROLE_COUNT as int }),
                key_slots@ =~= if i < ROLE_COUNT {
                    Seq::empty()
                } else {
                    all@.subrange(ROLE_COUNT as int, i as int)
                },
            decreases PALETTE_SIZE - i,
        {
            if i < ROLE_COUNT {
                roles.push(all[i]);
            } else {
                key_slots.push(all[i]);
            }
            i += 1;
        }
        ColorSet { roles, key_slots }
    }

    /// The colour that a field's bytes are drawn in.
    pub fn color_of(&self, f: &Field) -> (r: Rgb)
        requires
            self.wf(),
        ensures
            r == self.field_color(*f),
    {
        let slot: usize = match f {
            Field::SignatureCount => 0,
            Field::VersionByte => 1,
            Field::NumRequiredSignatures => 2,
            Field::NumReadonlySignedAccounts => 3,
            Field::NumReadonlyUnsignedAccounts => 4,
            Field::RecentBlockhash => 5,
            Field::InstructionCount => 6,
            Field::InstructionNumAccounts => 7,
            Field::InstructionAccounts => 8,
            Field::InstructionDataLength => 9,
            Field::InstructionData => 10,
            Field::LookupCount => 11,
            Field::LookupAddress => 12,
            Field::LookupWriteCount => 13,
            Field::LookupReadCount => 14,
            Field::LookupWriteSet => 15,
            Field::LookupReadSet => 16,
            _ => ROLE_COUNT,
        };
        if slot < ROLE_COUNT {
            return self.roles[slot];
        }
        let key: usize = match f {
            Field::Signature(i) => *i,
            Field::StaticAccountKey(i) => *i,
            Field::ProgramIdIndex(i) => *i as usize,
            _ => {
                return Rgb { r: 255, g: 255, b: 0 };
            },
        };
        if key < self.key_slots.len() {
            self.key_slots[key]
        } else {
            Rgb { r: 255, g: 255, b: 255 }
        }
    }
}

} // verus!
