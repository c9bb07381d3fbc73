use vstd::prelude::*;

verus! {

/// The model address space: every derived address is a value below this bound.
pub const ADDRESS_SPACE: u64 = 0x1_0000_0000;

/// Multiplier of the mixing step of the derivation hash.
pub const MIX_MULTIPLIER: u64 = 0x0100_0193;

/// Initial accumulator of the derivation hash; it plays the role of the
/// address-space discriminator, so that this program's derivations live in
/// their own family.
pub const DERIVE_INIT: u64 = 0x811C_9DC5;

/// Byte mixed in after each seed, so that seed boundaries matter.
pub const SEED_MARK: u8 = 0xA5;

/// One step of the derivation hash: absorb one byte into the accumulator.
pub open spec fn spec_mix(h: u64, b: u8) -> u64 {
    (((h as int) * (MIX_MULTIPLIER as int) + (b as int) + 1) % (ADDRESS_SPACE as int)) as u64
}

/// Absorb a whole byte string, left to right.
pub open spec fn spec_absorb_bytes(h: u64, s: Seq<u8>) -> u64
    decreases s.len(),
{
    if s.len() == 0 {
        h
    } else {
        spec_mix(spec_absorb_bytes(h, s.drop_last()), s.last())
    }
}

/// Absorb one seed and close it with the boundary mark.
pub open spec fn spec_absorb_seed(h: u64, s: Seq<u8>) -> u64 {
    spec_mix(spec_absorb_bytes(h, s), SEED_MARK)
}

/// Absorb an ordered sequence of seeds.
pub open spec fn spec_absorb_seeds(h: u64, seeds: Seq<Seq<u8>>) -> u64
    decreases seeds.len(),
{
    if seeds.len() == 0 {
        h
    } else {
        spec_absorb_seed(spec_absorb_seeds(h, seeds.drop_last()), seeds.last())
    }
}

/// The byte strings held by a sequence of byte vectors.
pub open spec fn seed_views(s: Seq<Vec<u8>>) -> Seq<Seq<u8>> {
    s.map_values(|v: Vec<u8>| v@)
}

/// The hash of a seed sequence, before any bump is appended.
pub open spec fn spec_seed_base(seeds: Seq<Seq<u8>>) -> u64 {
    spec_absorb_seeds(DERIVE_INIT, seeds)
}

/// The address derived from a seed sequence and one explicit bump byte:
/// the bump is added onto the seed hash, wrapping inside the address space.
pub open spec fn spec_address_with_bump(seeds: Seq<Seq<u8>>, bump: u8) -> u64 {
    let h = spec_seed_base(seeds);
    if h + bump < ADDRESS_SPACE {
        (h + bump) as u64
    } else {
        (h + bump - ADDRESS_SPACE) as u64
    }
}

/// Model of curve membership: an address that is a valid point of the
/// key-generation curve could have a private key, so the canonical bump must
/// avoid it. The model declares the even addresses to be the curve points.
pub open spec fn spec_is_on_curve(a: u64) -> bool {
    a % 2 == 0
}

/// Descending search for the first bump, from `b` down to 0, whose derived
/// address lies off the curve.
pub open spec fn spec_bump_search(seeds: Seq<Seq<u8>>, b: u8) -> Option<u8>
    decreases b,
{
    if !spec_is_on_curve(spec_address_with_bump(seeds, b)) {
        Some(b)
    } else if b == 0 {
        None
    } else {
        spec_bump_search(seeds, (b - 1) as u8)
    }
}

/// The canonical bump of a seed sequence: the first off-curve bump in the
/// descending search that starts at 255.
pub open spec fn spec_canonical_bump(seeds: Seq<Seq<u8>>) -> Option<u8> {
    spec_bump_search(seeds, 255)
}

/// The canonical bump as a byte; a canonical bump always exists
/// (`lemma_canonical_bump_exists`), so the default arm is never taken.
pub open spec fn spec_canonical_bump_val(seeds: Seq<Seq<u8>>) -> u8 {
    match spec_canonical_bump(seeds) {
        Some(b) => b,
        None => 0,
    }
}

/// The canonical derived address of a seed sequence.
pub open spec fn spec_derived_address(seeds: Seq<Seq<u8>>) -> u64 {
    spec_address_with_bump(seeds, spec_canonical_bump_val(seeds))
}

pub proof fn lemma_absorb_bytes_bounded(h: u64, s: Seq<u8>)
    requires
        h < ADDRESS_SPACE,
    ensures
        spec_absorb_bytes(h, s) < ADDRESS_SPACE,
    decreases s.len(),
{
    if s.len() == 0 {
    } else {
        lemma_absorb_bytes_bounded(h, s.drop_last());
    }
}

pub proof fn lemma_absorb_seeds_bounded(h: u64, seeds: Seq<Seq<u8>>)
    requires
        h < ADDRESS_SPACE,
    ensures
        spec_absorb_seeds(h, seeds) < ADDRESS_SPACE,
    decreases seeds.len(),
{
    if seeds.len() == 0 {
    } else {
        lemma_absorb_seeds_bounded(h, seeds.drop_last());
        lemma_absorb_bytes_bounded(spec_absorb_seeds(h, seeds.drop_last()), seeds.last());
    }
}

pub proof fn lemma_seed_base_bounded(seeds: Seq<Seq<u8>>)
    ensures
        spec_seed_base(seeds) < ADDRESS_SPACE,
{
    lemma_absorb_seeds_bounded(DERIVE_INIT, seeds);
}

/// Two adjacent bumps derive addresses of opposite curve membership, so a
/// descending bump search never walks more than one step.
pub proof fn lemma_adjacent_bumps_parity(seeds: Seq<Seq<u8>>, b: u8)
    requires
        b >= 1,
    ensures
        spec_is_on_curve(spec_address_with_bump(seeds, b)) != spec_is_on_curve(
            spec_address_with_bump(seeds, (b - 1) as u8),
        ),
{
    lemma_seed_base_bounded(seeds);
}

/// Law: every seed sequence has a canonical bump, because the bump search
/// finds an off-curve address at 255 or at 254.
pub proof fn lemma_canonical_bump_exists(seeds: Seq<Seq<u8>>)
    ensures
        spec_canonical_bump(seeds) is Some,
{
    if spec_is_on_curve(spec_address_with_bump(seeds, 255)) {
        lemma_adjacent_bumps_parity(seeds, 255);
        assert(spec_bump_search(seeds, 254) == Some(254u8));
    }
}

proof fn lemma_bump_search_characterizes(seeds: Seq<Seq<u8>>, b: u8)
    ensures
        match spec_bump_search(seeds, b) {
            Some(r) => r <= b && !spec_is_on_curve(spec_address_with_bump(seeds, r)) && forall|
                c: u8,
            | r < c <= b ==> spec_is_on_curve(spec_address_with_bump(seeds, c)),
            None => forall|c: u8| c <= b ==> spec_is_on_curve(spec_address_with_bump(seeds, c)),
        },
    decreases b,
{
    if spec_is_on_curve(spec_address_with_bump(seeds, b)) && b != 0 {
        lemma_bump_search_characterizes(seeds, (b - 1) as u8);
    }
}

/// Law: the canonical bump is the first bump of the descending search —
/// its address is off the curve, and the address of every higher bump is
/// on the curve.
pub proof fn lemma_canonical_bump_first(seeds: Seq<Seq<u8>>)
    ensures
        ({
            let b = spec_canonical_bump_val(seeds);
            &&& !spec_is_on_curve(spec_address_with_bump(seeds, b))
            &&& forall|c: u8| c > b ==> spec_is_on_curve(spec_address_with_bump(seeds, c))
        }),
{
    lemma_canonical_bump_exists(seeds);
    lemma_bump_search_characterizes(seeds, 255);
}

/// Law: for one seed sequence, distinct bumps derive distinct addresses; in
/// particular no non-canonical bump can reproduce the canonical address.
pub proof fn lemma_bump_injective(seeds: Seq<Seq<u8>>, b1: u8, b2: u8)
    requires
        b1 != b2,
    ensures
        spec_address_with_bump(seeds, b1) != spec_address_with_bump(seeds, b2),
{
    lemma_seed_base_bounded(seeds);
}

/// Law: determinism of the deriver — the canonical address and bump are a
/// function of the seed contents alone, so deriving the same seed sequence
/// twice always yields the same pair.
pub proof fn lemma_derive_deterministic(s1: Seq<Seq<u8>>, s2: Seq<Seq<u8>>)
    requires
        s1 == s2,
    ensures
        spec_derived_address(s1) == spec_derived_address(s2),
        spec_canonical_bump(s1) == spec_canonical_bump(s2),
{
}

fn mix(h: u64, b: u8) -> (r: u64)
    requires
        h < ADDRESS_SPACE,
    ensures
        r == spec_mix(h, b),
        r < ADDRESS_SPACE,
{
    (h * MIX_MULTIPLIER + (b as u64) + 1) % ADDRESS_SPACE
}

fn absorb_seed(h: u64, s: &Vec<u8>) -> (r: u64)
    requires
        h < ADDRESS_SPACE,
    ensures
        r == spec_absorb_seed(h, s@),
        r < ADDRESS_SPACE,
{
    let mut acc = h;
    let mut j: usize = 0;
    proof {
        assert(s@.take(0) =~= Seq::<u8>::empty());
    }
    while j < s.len()
        invariant
            h < ADDRESS_SPACE,
            j <= s.len(),
            acc == spec_absorb_bytes(h, s@.take(j as int)),
            acc < ADDRESS_SPACE,
        decreases s.len() - j,
    {
        proof {
            assert(s@.take(j as int + 1).drop_last() =~= s@.take(j as int));
            assert(s@.take(j as int + 1).last() == s@[j as int]);
        }
        acc = mix(acc, s[j]);
        j += 1;
    }
    proof {
        assert(s@.take(s.len() as int) =~= s@);
    }
    mix(acc, SEED_MARK)
}

/// The address derived from the given seeds and one explicit bump byte.
pub fn address_with_bump(seeds: &Vec<Vec<u8>>, bump: u8) -> (a: u64)
    ensures
        a == spec_address_with_bump(seed_views(seeds@), bump),
        a < ADDRESS_SPACE,
{
    let ghost sv = seed_views(seeds@);
    let mut h: u64 = DERIVE_INIT;
    let mut i: usize = 0;
    proof {
        assert(sv.take(0) =~= Seq::<Seq<u8>>::empty());
    }
    while i < seeds.len()
        invariant
            i <= seeds.len(),
            sv == seed_views(seeds@),
            h == spec_absorb_seeds(DERIVE_INIT, sv.take(i as int)),
            h < ADDRESS_SPACE,
        decreases seeds.len() - i,
    {
        proof {
            assert(sv.take(i as int + 1).drop_last() =~= sv.take(i as int));
            assert(sv.take(i as int + 1).last() == seeds@[i as int]@);
        }
        h = absorb_seed(h, &seeds[i]);
        i += 1;
    }
    proof {
        assert(sv.take(seeds.len() as int) =~= sv);
    }
    let hb = h + (bump as u64);
    if hb < ADDRESS_SPACE {
        hb
    } else {
        hb - ADDRESS_SPACE
    }
}

/// Whether an address is a valid point of the model curve.
pub fn is_on_curve(a: u64) -> (r: bool)
    ensures
        r == spec_is_on_curve(a),
{
    a % 2 == 0
}

/// Derive the unique canonical `(address, bump)` pair of a seed sequence:
/// the bump is the first value, searching downward from 255, whose derived
/// address is not on the curve, so no private key can exist for the address.
pub fn derive_address(seeds: &Vec<Vec<u8>>) -> (r: (u64, u8))
    ensures
        Some(r.1) == spec_canonical_bump(seed_views(seeds@)),
        r.1 == spec_canonical_bump_val(seed_views(seeds@)),
        r.0 == spec_derived_address(seed_views(seeds@)),
        !spec_is_on_curve(r.0),
{
    let ghost sv = seed_views(seeds@);
    let mut b: u8 = 255;
    let mut a: u64 = address_with_bump(seeds, b);
    while is_on_curve(a)
        invariant
            sv == seed_views(seeds@),
            a == spec_address_with_bump(sv, b),
            spec_bump_search(sv, 255) == spec_bump_search(sv, b),
        decreases b,
    {
        proof {
            lemma_canonical_bump_exists(sv);
            if b == 0 {
                assert(spec_bump_search(sv, 0) is None);
                assert(false);
            }
        }
        b = b - 1;
        a = address_with_bump(seeds, b);
    }
    proof {
        assert(spec_bump_search(sv, b) == Some(b));
    }
    (a, b)
}

/// Little-endian byte rendering of an address, used to feed a derived
/// address back into a further seed sequence.
pub open spec fn spec_le_bytes(a: u64) -> Seq<u8> {
    seq![
        (a % 256) as u8,
        ((a / 256) % 256) as u8,
        ((a / 65536) % 256) as u8,
        ((a / 16777216) % 256) as u8,
        ((a / 4294967296) % 256) as u8,
        ((a / 1099511627776) % 256) as u8,
        ((a / 281474976710656) % 256) as u8,
        ((a / 72057594037927936) % 256) as u8,
    ]
}

pub fn le_bytes(a: u64) -> (r: Vec<u8>)
    ensures
        r@ == spec_le_bytes(a),
{
    let mut r: Vec<u8> = Vec::new();
    r.push((a % 256) as u8);
    r.push(((a / 256) % 256) as u8);
    r.push(((a / 65536) % 256) as u8);
    r.push(((a / 16777216) % 256) as u8);
    r.push(((a / 4294967296) % 256) as u8);
    r.push(((a / 1099511627776) % 256) as u8);
    r.push(((a / 281474976710656) % 256) as u8);
    r.push(((a / 72057594037927936) % 256) as u8);
    proof {
        assert(r@ =~= spec_le_bytes(a));
    }
    r
}

/// The numeric value of 8 little-endian bytes.
pub open spec fn spec_le_value(s: Seq<u8>) -> int
    recommends
        s.len() == 8,
{
    (s[0] as int) + 256 * ((s[1] as int) + 256 * ((s[2] as int) + 256 * ((s[3] as int) + 256 * ((
    s[4] as int) + 256 * ((s[5] as int) + 256 * ((s[6] as int) + 256 * (s[7] as int)))))))
}

/// Law: reading back the little-endian rendering of a value yields the
/// value.
pub proof fn lemma_le_bytes_value(a: u64)
    ensures
        spec_le_value(spec_le_bytes(a)) == a,
{
    let x = a as int;
    vstd::arithmetic::div_mod::lemma_fundamental_div_mod(x, 256);
    vstd::arithmetic::div_mod::lemma_div_denominator(x, 256, 256);
    vstd::arithmetic::div_mod::lemma_fundamental_div_mod(x / 256, 256);
    vstd::arithmetic::div_mod::lemma_div_denominator(x, 65536, 256);
    vstd::arithmetic::div_mod::lemma_fundamental_div_mod(x / 65536, 256);
    vstd::arithmetic::div_mod::lemma_div_denominator(x, 16777216, 256);
    vstd::arithmetic::div_mod::lemma_fundamental_div_mod(x / 16777216, 256);
    vstd::arithmetic::div_mod::lemma_div_denominator(x, 4294967296, 256);
    vstd::arithmetic::div_mod::lemma_fundamental_div_mod(x / 4294967296, 256);
    vstd::arithmetic::div_mod::lemma_div_denominator(x, 1099511627776, 256);
    vstd::arithmetic::div_mod::lemma_fundamental_div_mod(x / 1099511627776, 256);
    vstd::arithmetic::div_mod::lemma_div_denominator(x, 281474976710656, 256);
    vstd::arithmetic::div_mod::lemma_fundamental_div_mod(x / 281474976710656, 256);
    vstd::arithmetic::div_mod::lemma_multiply_divide_lt(x, 72057594037927936, 256);
    vstd::arithmetic::div_mod::lemma_small_mod((x / 72057594037927936) as nat, 256);
}

/// Law: rendering the value of 8 bytes yields the same 8 bytes.
pub proof fn lemma_le_value_bytes(s: Seq<u8>)
    requires
        s.len() == 8,
    ensures
        0 <= spec_le_value(s) < 0x1_0000_0000_0000_0000,
        spec_le_bytes(spec_le_value(s) as u64) == s,
{
    let r7 = s[7] as int;
    let r6 = (s[6] as int) + 256 * r7;
    let r5 = (s[5] as int) + 256 * r6;
    let r4 = (s[4] as int) + 256 * r5;
    let r3 = (s[3] as int) + 256 * r4;
    let r2 = (s[2] as int) + 256 * r3;
    let r1 = (s[1] as int) + 256 * r2;
    let x = (s[0] as int) + 256 * r1;
    assert(x == spec_le_value(s));
    vstd::arithmetic::div_mod::lemma_fundamental_div_mod_converse(x, 256, r1, s[0] as int);
    vstd::arithmetic::div_mod::lemma_fundamental_div_mod_converse(r1, 256, r2, s[1] as int);
    vstd::arithmetic::div_mod::lemma_fundamental_div_mod_converse(r2, 256, r3, s[2] as int);
    vstd::arithmetic::div_mod::lemma_fundamental_div_mod_converse(r3, 256, r4, s[3] as int);
    vstd::arithmetic::div_mod::lemma_fundamental_div_mod_converse(r4, 256, r5, s[4] as int);
    vstd::arithmetic::div_mod::lemma_fundamental_div_mod_converse(r5, 256, r6, s[5] as int);
    vstd::arithmetic::div_mod::lemma_fundamental_div_mod_converse(r6, 256, r7, s[6] as int);
    vstd::arithmetic::div_mod::lemma_small_mod(r7 as nat, 256);
    vstd::arithmetic::div_mod::lemma_div_denominator(x, 256, 256);
    vstd::arithmetic::div_mod::lemma_div_denominator(x, 65536, 256);
    vstd::arithmetic::div_mod::lemma_div_denominator(x, 16777216, 256);
    vstd::arithmetic::div_mod::lemma_div_denominator(x, 4294967296, 256);
    vstd::arithmetic::div_mod::lemma_div_denominator(x, 1099511627776, 256);
    vstd::arithmetic::div_mod::lemma_div_denominator(x, 281474976710656, 256);
    assert(r7 == x / 72057594037927936);
    assert(spec_le_bytes(spec_le_value(s) as u64) =~= s);
}

/// Tag of the state record's seed tuple.
pub open spec fn spec_state_tag() -> Seq<u8> {
    seq![115u8, 116u8, 97u8, 116u8, 101u8]
}

/// Tag of the vault authority's seed tuple.
pub open spec fn spec_vault_tag() -> Seq<u8> {
    seq![118u8, 97u8, 117u8, 108u8, 116u8]
}

/// Tag of the holding account's seed tuple.
pub open spec fn spec_holding_tag() -> Seq<u8> {
    seq![104u8, 111u8, 108u8, 100u8, 105u8, 110u8, 103u8]
}

/// Seed tuple of the state record of an (owner, asset) pair.
pub open spec fn spec_state_seeds(owner: u64, asset: u64) -> Seq<Seq<u8>> {
    seq![spec_state_tag(), spec_le_bytes(owner), spec_le_bytes(asset)]
}

/// Seed tuple of the derived vault authority of a state record.
pub open spec fn spec_vault_seeds(state_address: u64) -> Seq<Seq<u8>> {
    seq![spec_vault_tag(), spec_le_bytes(state_address)]
}

/// Seed tuple of the canonical holding account of an (authority, asset) pair.
pub open spec fn spec_holding_seeds(authority: u64, asset: u64) -> Seq<Seq<u8>> {
    seq![spec_holding_tag(), spec_le_bytes(authority), spec_le_bytes(asset)]
}

fn state_tag() -> (r: Vec<u8>)
    ensures
        r@ == spec_state_tag(),
{
    let mut r: Vec<u8> = Vec::new();
    r.push(115);
    r.push(116);
    r.push(97);
    r.push(116);
    r.push(101);
    proof {
        assert(r@ =~= spec_state_tag());
    }
    r
}

fn vault_tag() -> (r: Vec<u8>)
    ensures
        r@ == spec_vault_tag(),
{
    let mut r: Vec<u8> = Vec::new();
    r.push(118);
    r.push(97);
    r.push(117);
    r.push(108);
    r.push(116);
    proof {
        assert(r@ =~= spec_vault_tag());
    }
    r
}

fn holding_tag() -> (r: Vec<u8>)
    ensures
        r@ == spec_holding_tag(),
{
    let mut r: Vec<u8> = Vec::new();
    r.push(104);
    r.push(111);
    r.push(108);
    r.push(100);
    r.push(105);
    r.push(110);
    r.push(103);
    proof {
        assert(r@ =~= spec_holding_tag());
    }
    r
}

/// Build the state record's seed tuple.
pub fn state_seeds(owner: u64, asset: u64) -> (r: Vec<Vec<u8>>)
    ensures
        seed_views(r@) == spec_state_seeds(owner, asset),
{
    let mut r: Vec<Vec<u8>> = Vec::new();
    r.push(state_tag());
    r.push(le_bytes(owner));
    r.push(le_bytes(asset));
    proof {
        assert(seed_views(r@) =~= spec_state_seeds(owner, asset));
    }
    r
}

/// Build the vault authority's seed tuple.
pub fn vault_seeds(state_address: u64) -> (r: Vec<Vec<u8>>)
    ensures
        seed_views(r@) == spec_vault_seeds(state_address),
{
    let mut r: Vec<Vec<u8>> = Vec::new();
    r.push(vault_tag());
    r.push(le_bytes(state_address));
    proof {
        assert(seed_views(r@) =~= spec_vault_seeds(state_address));
    }
    r
}

/// Build the holding account's seed tuple.
pub fn holding_seeds(authority: u64, asset: u64) -> (r: Vec<Vec<u8>>)
    ensures
        seed_views(r@) == spec_holding_seeds(authority, asset),
{
    let mut r: Vec<Vec<u8>> = Vec::new();
    r.push(holding_tag());
    r.push(le_bytes(authority));
    r.push(le_bytes(asset));
    proof {
        assert(seed_views(r@) =~= spec_holding_seeds(authority, asset));
    }
    r
}

} // verus!
