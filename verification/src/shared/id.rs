//! UUID-based identifiers.
//!
//! Entity IDs carry a type prefix (e.g. `project_`, `task_`) and are written as
//! `<prefix><hex>`, where `<hex>` is the UUID as 32 lowercase hex digits. Event
//! IDs are bare hex. Because a version 7 UUID encodes a millisecond timestamp in
//! its most significant bits, the hex form sorts in chronological order, which
//! is how event files are ordered on disk.
//!
//! A UUID is held as its 128-bit big-endian value. The `uuid` crate mints,
//! formats and parses them; the functions below that call it are the only
//! trusted items of this module.

use vstd::prelude::*;
use vstd::arithmetic::power2::pow2;

use crate::error::IdError;
use crate::shared::sort::{sorted_uuids, uuid_le};
use vstd::multiset::Multiset;
use vstd::relations::total_ordering;
use vstd::seq_lib::{commutative_foldl, lemma_fold_left_permutation, lemma_sorted_unique};
use crate::shared::text::{concat, string_views, strip_prefix};

verus! {

/// The character for a hex digit value `0..16`, in lowercase.
pub open spec fn hex_digit_char(d: int) -> char {
    if d < 10 {
        (48 + d) as char
    } else {
        (87 + d) as char
    }
}

/// The `i`-th hex digit of a UUID, most significant first.
pub open spec fn uuid_nibble(uuid: u128, i: int) -> int {
    (uuid as int / pow2((4 * (31 - i)) as nat) as int) % 16
}

/// A UUID written as 32 lowercase hex digits (the "simple" format).
pub open spec fn uuid_hex(uuid: u128) -> Seq<char> {
    Seq::new(32, |i: int| hex_digit_char(uuid_nibble(uuid, i)))
}

/// The version field of a UUID (the high nibble of its seventh byte).
pub open spec fn uuid_version(uuid: u128) -> int {
    (uuid as int / pow2(76) as int) % 16
}

/// The millisecond Unix timestamp held in the top 48 bits of a version 7 UUID.
pub open spec fn uuid_v7_millis(uuid: u128) -> int {
    uuid as int / pow2(80) as int
}

/// The 60-bit count of 100 ns ticks since 1582-10-15 that a version 1 or 6
/// UUID holds: for version 1 split as time-high (12 bits, beside the
/// version), time-mid and time-low; for version 6 most significant first.
pub open spec fn gregorian_ticks(uuid: u128) -> int {
    let u = uuid as int;
    if uuid_version(uuid) == 1 {
        (u / 0x1_0000_0000_0000_0000) % 0x1000 * 0x1_0000_0000_0000 + (u / 0x1_0000_0000_0000_0000_0000)
            % 0x1_0000 * 0x1_0000_0000 + (u / 0x1_0000_0000_0000_0000_0000_0000) % 0x1_0000_0000
    } else {
        (u / 0x1_0000_0000_0000_0000_0000) * 0x1000 + (u / 0x1_0000_0000_0000_0000) % 0x1000
    }
}

/// The Unix time, as seconds and sub-second nanoseconds, that the `uuid` crate
/// decodes from the Gregorian timestamp of a version 1 or 6 UUID: the ticks
/// less those between 1582-10-15 and 1970-01-01, wrapping as a `u64` does,
/// then split into seconds and 100 ns steps.
pub open spec fn gregorian_unix_time(uuid: u128) -> (u64, u32) {
    let t = (gregorian_ticks(uuid) - 0x01B2_1DD2_1381_4000) % 0x1_0000_0000_0000_0000;
    ((t / 10_000_000) as u64, ((t % 10_000_000) * 100) as u32)
}

/// The Unix time the `uuid` crate decodes from a UUID: for version 7 the
/// millisecond timestamp split into seconds and nanoseconds, for versions 1 and
/// 6 the Gregorian timestamp, and nothing for any other version.
pub open spec fn uuid_unix_time(uuid: u128) -> Option<(u64, u32)> {
    if uuid_version(uuid) == 7 {
        let m = uuid_v7_millis(uuid);
        Some(((m / 1000) as u64, ((m % 1000) * 1_000_000) as u32))
    } else if uuid_version(uuid) == 1 || uuid_version(uuid) == 6 {
        Some(gregorian_unix_time(uuid))
    } else {
        None
    }
}

/// The creation time (ms since the Unix epoch) encoded in a UUID, if any.
pub open spec fn uuid_millis(uuid: u128) -> Option<u64> {
    match uuid_unix_time(uuid) {
        Some(t) => Some((t.0 * 1000 + t.1 / 1_000_000) as u64),
        None => None,
    }
}

/// The version 5 (SHA-1, name-based) UUID of `name` within `namespace`.
pub uninterp spec fn uuid_v5_value(namespace: u128, name: Seq<u8>) -> u128;

/// What the `uuid` crate's parser makes of `text`.
pub uninterp spec fn uuid_parse_value(text: Seq<char>) -> Option<u128>;

/// Mints a version 7 UUID from the current time (`uuid::Uuid::now_v7`).
/// Claimed: the result carries version 7. The time and random bits are not
/// stated.
#[verifier::external_body]
fn uuid_now_v7() -> (uuid: u128)
    ensures
        uuid_version(uuid) == 7,
{
    uuid::Uuid::now_v7().as_u128()
}

/// Derives a version 5 UUID (`uuid::Uuid::new_v5`). Claimed: the result is a
/// function of the namespace and name bytes alone, and carries version 5.
#[verifier::external_body]
fn uuid_new_v5(namespace: u128, name: &[u8]) -> (uuid: u128)
    ensures
        uuid == uuid_v5_value(namespace, name@),
        uuid_version(uuid) == 5,
{
    uuid::Uuid::new_v5(&uuid::Uuid::from_u128(namespace), name).as_u128()
}

/// Formats a UUID in the simple format (`uuid::Uuid::as_simple` and its
/// `Display`). Claimed: 32 lowercase hex digits, most significant first.
#[verifier::external_body]
fn uuid_simple(uuid: u128) -> (text: String)
    ensures
        text@ == uuid_hex(uuid),
{
    uuid::Uuid::from_u128(uuid).as_simple().to_string()
}

/// Parses a UUID (`uuid::Uuid::parse_str`). Claimed: the result is a function
/// of the text alone, and the simple format of a UUID parses back to it. What
/// the other accepted formats give is not stated.
#[verifier::external_body]
fn uuid_parse(text: &str) -> (r: Option<u128>)
    ensures
        r == uuid_parse_value(text@),
        forall|uuid: u128| text@ == uuid_hex(uuid) ==> r == Some(uuid),
{
    match uuid::Uuid::parse_str(text) {
        Ok(u) => Some(u.as_u128()),
        Err(_) => None,
    }
}

/// The timestamp of a UUID (`uuid::Uuid::get_timestamp`, then
/// `uuid::Timestamp::to_unix`). Claimed: the Unix time as `uuid_unix_time`
/// states it; the seconds come from dividing a `u64` by 10_000_000 and the
/// nanoseconds stay below one second.
#[verifier::external_body]
fn uuid_timestamp(uuid: u128) -> (r: Option<(u64, u32)>)
    ensures
        r == uuid_unix_time(uuid),
        uuid_version(uuid) == 1 || uuid_version(uuid) == 6 ==> r == Some(gregorian_unix_time(uuid)),
        r matches Some(t) ==> t.0 <= 1_844_674_407_370 && t.1 < 1_000_000_000,
{
    match uuid::Uuid::from_u128(uuid).get_timestamp() {
        Some(ts) => Some(ts.to_unix()),
        None => None,
    }
}

/// A fresh, time-ordered UUID (version 7).
pub fn new_uuid() -> (uuid: u128)
    ensures
        uuid_version(uuid) == 7,
{
    uuid_now_v7()
}

proof fn lemma_v7_millis_round_trip(m: int)
    requires
        0 <= m,
    ensures
        (m / 1000) * 1000 + ((m % 1000) * 1_000_000) / 1_000_000 == m,
{
    assert(((m % 1000) * 1_000_000) / 1_000_000 == m % 1000) by (nonlinear_arith);
    assert((m / 1000) * 1000 + m % 1000 == m) by (nonlinear_arith);
}

/// For a version 7 UUID the creation time is exactly its 48-bit timestamp.
pub proof fn lemma_v7_created_at(uuid: u128)
    requires
        uuid_version(uuid) == 7,
    ensures
        uuid_millis(uuid) == Some(uuid_v7_millis(uuid) as u64),
{
    let m = uuid_v7_millis(uuid);
    vstd::arithmetic::power2::lemma2_to64();
    assert(pow2(80) > 0) by {
        vstd::arithmetic::power2::lemma_pow2_pos(80);
    }
    assert(0 <= m);
    lemma_v7_millis_round_trip(m);
    assert(m / 1000 < 0x1_0000_0000_0000_0000) by {
        assert(uuid as int <= 0xffff_ffff_ffff_ffff_ffff_ffff_ffff_ffff);
        vstd::arithmetic::power2::lemma_pow2_adds(64, 16);
        vstd::arithmetic::power2::lemma2_to64_rest();
        assert(pow2(80) == 0x1_0000_0000_0000_0000_0000);
        assert(m <= 0xffff_ffff_ffff);
    }
    assert(((m % 1000) * 1_000_000) < 0x1_0000_0000) by (nonlinear_arith)
        requires 0 <= m;
    assert(m <= 0xffff_ffff_ffff) by {
        vstd::arithmetic::power2::lemma_pow2_adds(64, 16);
        vstd::arithmetic::power2::lemma2_to64_rest();
    }
}

/// Version 7 UUIDs order by creation time: one minted in an earlier
/// millisecond is the smaller UUID.
pub proof fn lemma_v7_time_order(a: u128, b: u128)
    requires
        uuid_v7_millis(a) < uuid_v7_millis(b),
    ensures
        a < b,
{
    vstd::arithmetic::power2::lemma_pow2_pos(80);
    if a >= b {
        vstd::arithmetic::div_mod::lemma_div_is_ordered(b as int, a as int, pow2(80) as int);
    }
}

/// Text written with one prefix never parses as an ID with a prefix that
/// starts with another character.
pub proof fn lemma_prefix_mismatch(prefix: Seq<char>, other: Seq<char>, uuid: u128)
    requires
        prefix.len() > 0,
        other.len() > 0,
        prefix[0] != other[0],
    ensures
        parse_id_value(prefix, id_text(other, uuid)) is None,
{
    assert(id_text(other, uuid)[0] == other[0]);
}

/// The millisecond Unix timestamp encoded in a UUID (versions 1, 6 and 7), or
/// `None` for versions that carry no timestamp.
pub fn millis_from_uuid_v7(uuid: u128) -> (r: Option<u64>)
    ensures
        r == uuid_millis(uuid),
{
    match uuid_timestamp(uuid) {
        Some((secs, nanos)) => Some(secs * 1_000 + (nanos as u64) / 1_000_000),
        None => None,
    }
}

/// `<prefix><hex>`: the text form of an ID.
pub open spec fn id_text(prefix: Seq<char>, uuid: u128) -> Seq<char> {
    prefix + uuid_hex(uuid)
}

/// Writes an ID as `<prefix><hex>`.
pub fn format_id(prefix: &str, uuid: u128) -> (text: String)
    ensures
        text@ == id_text(prefix@, uuid),
{
    let hex = uuid_simple(uuid);
    concat(prefix, hex.as_str())
}

/// What parsing `text` as an ID with `prefix` yields: the UUID after the
/// prefix, if the prefix is there and the rest parses.
pub open spec fn parse_id_value(prefix: Seq<char>, text: Seq<char>) -> Option<u128> {
    if prefix.is_prefix_of(text) {
        uuid_parse_value(text.skip(prefix.len() as int))
    } else {
        None
    }
}

/// Parses `<prefix><uuid>`.
pub fn parse_id(text: &str, prefix: &'static str) -> (r: core::result::Result<u128, IdError>)
    ensures
        r is Ok <==> parse_id_value(prefix@, text@) is Some,
        r matches Ok(u) ==> parse_id_value(prefix@, text@) == Some(u),
        r matches Err(e) ==> (match e {
            IdError::MissingPrefix(p) => p@ == prefix@ && !prefix@.is_prefix_of(text@),
            IdError::InvalidUuid => prefix@.is_prefix_of(text@),
        }),
        forall|uuid: u128| text@ == id_text(prefix@, uuid) ==> r == Ok::<u128, IdError>(uuid),
{
    match strip_prefix(text, prefix) {
        None => Err(IdError::MissingPrefix(prefix)),
        Some(rest) => {
            proof {
                assert forall|uuid: u128| text@ == id_text(prefix@, uuid) implies rest@ == uuid_hex(uuid) by {
                    assert(rest@ =~= text@.skip(prefix@.len() as int));
                    assert(text@.skip(prefix@.len() as int) =~= uuid_hex(uuid));
                }
            }
            match uuid_parse(rest) {
                Some(u) => Ok(u),
                None => Err(IdError::InvalidUuid),
            }
        },
    }
}

/// The UUIDs of the names that parse as IDs with `prefix`, in order; names
/// that don't parse are skipped.
pub open spec fn parsed_uuids(names: Seq<Seq<char>>, prefix: Seq<char>) -> Seq<u128>
    decreases names.len(),
{
    if names.len() == 0 {
        Seq::empty()
    } else {
        let prev = parsed_uuids(names.drop_last(), prefix);
        match parse_id_value(prefix, names.last()) {
            Some(u) => prev.push(u),
            None => prev,
        }
    }
}

/// The UUIDs of the names that parse as IDs with `prefix`, oldest first.
pub open spec fn listed_uuids(names: Seq<Seq<char>>, prefix: Seq<char>) -> Seq<u128> {
    sorted_uuids(parsed_uuids(names, prefix))
}

/// Parses every name that is an ID with `prefix`, skipping the others.
pub fn parse_uuids(names: &Vec<String>, prefix: &'static str) -> (r: Vec<u128>)
    ensures
        r@ == parsed_uuids(string_views(names@), prefix@),
{
    let mut out: Vec<u128> = Vec::new();
    let mut k: usize = 0;
    while k < names.len()
        invariant
            k <= names@.len(),
            out@ == parsed_uuids(string_views(names@).take(k as int), prefix@),
        decreases names@.len() - k,
    {
        proof {
            assert(string_views(names@).take(k + 1).drop_last() =~= string_views(names@).take(k as int));
            assert(string_views(names@).take(k + 1).last() == names@[k as int]@);
        }
        match parse_id(names[k].as_str(), prefix) {
            Ok(u) => out.push(u),
            Err(_) => {},
        }
        k = k + 1;
    }
    proof {
        assert(string_views(names@).take(names@.len() as int) =~= string_views(names@));
    }
    out
}

/// The namespace UUID from which every seeded entity's ID is derived.
pub const SEED_NAMESPACE: u128 = 0xa1b2c3d4e5f67890abcdef0123456789u128;

/// The deterministic UUID of a seed: version 5 of the slug's bytes in
/// [`SEED_NAMESPACE`]. The same slug always gives the same ID, on every machine
/// and in every build.
pub open spec fn seed_uuid(slug: Seq<char>) -> u128 {
    uuid_v5_value(SEED_NAMESPACE, vstd::utf8::encode_utf8(slug))
}

/// Derives the deterministic UUID of a seed from its slug.
pub fn seed_id(slug: &str) -> (uuid: u128)
    ensures
        uuid == seed_uuid(slug@),
        uuid_version(uuid) == 5,
{
    uuid_new_v5(SEED_NAMESPACE, slug.as_bytes())
}

/// Identifier of a single event (bare UUID hex, no prefix).
#[derive(Clone, Copy, PartialEq, Eq, Structural, Hash, PartialOrd, Ord, Debug)]
pub struct EventId(pub u128);

impl EventId {
    /// Mints a fresh, time-ordered ID.
    pub fn new() -> (id: Self)
        ensures
            uuid_version(id.0) == 7,
    {
        EventId(new_uuid())
    }

    /// Wraps an existing UUID.
    pub fn from_uuid(uuid: u128) -> (id: Self)
        ensures
            id.0 == uuid,
    {
        EventId(uuid)
    }

    /// The underlying UUID.
    pub fn as_uuid(&self) -> (uuid: u128)
        ensures
            uuid == self.0,
    {
        self.0
    }

    /// The text form of the ID: its hex digits.
    pub open spec fn text(self) -> Seq<char> {
        id_text(""@, self.0)
    }

    /// Writes the ID as its hex digits.
    pub fn to_string(&self) -> (text: String)
        ensures
            text@ == self.text(),
    {
        format_id("", self.0)
    }

    /// Parses an ID written as hex digits.
    pub fn parse(text: &str) -> (r: core::result::Result<Self, IdError>)
        ensures
            r is Ok <==> parse_id_value(""@, text@) is Some,
            r matches Ok(id) ==> parse_id_value(""@, text@) == Some(id.0),
            r matches Err(e) ==> e is InvalidUuid,
            forall|id: Self| text@ == id.text() ==> r == Ok::<Self, IdError>(id),
    {
        proof {
            reveal_strlit("");
        }
        match parse_id(text, "") {
            Ok(u) => Ok(EventId(u)),
            Err(e) => Err(e),
        }
    }

    /// Creation time (ms since the Unix epoch) decoded from the UUID.
    pub fn created_at_millis(&self) -> (r: Option<u64>)
        ensures
            r == uuid_millis(self.0),
    {
        millis_from_uuid_v7(self.0)
    }
}

impl core::str::FromStr for EventId {
    type Err = IdError;

    fn from_str(s: &str) -> (r: core::result::Result<Self, IdError>)
        ensures
            r is Ok <==> parse_id_value(""@, s@) is Some,
            r matches Ok(id) ==> parse_id_value(""@, s@) == Some(id.0),
            r matches Err(e) ==> e is InvalidUuid,
            forall|id: Self| s@ == id.text() ==> r == Ok::<Self, IdError>(id),
    {
        EventId::parse(s)
    }
}

/// Adds the UUID a name parses to (with `prefix`), if any, to a multiset.
pub open spec fn add_parsed(prefix: Seq<char>) -> spec_fn(Multiset<u128>, Seq<char>) -> Multiset<u128> {
    |m: Multiset<u128>, name: Seq<char>|
        match parse_id_value(prefix, name) {
            Some(u) => m.insert(u),
            None => m,
        }
}

proof fn lemma_parsed_multiset(names: Seq<Seq<char>>, prefix: Seq<char>)
    ensures
        parsed_uuids(names, prefix).to_multiset() == names.fold_left(Multiset::empty(), add_parsed(prefix)),
    decreases names.len(),
{
    broadcast use vstd::seq_lib::group_to_multiset_ensures;

    if names.len() > 0 {
        lemma_parsed_multiset(names.drop_last(), prefix);
    }
}

proof fn lemma_add_parsed_commutes(prefix: Seq<char>)
    ensures
        commutative_foldl(add_parsed(prefix)),
{
    broadcast use vstd::multiset::group_multiset_axioms;

    assert forall|x: Seq<char>, y: Seq<char>, v: Multiset<u128>| #[trigger]
        (add_parsed(prefix))((add_parsed(prefix))(v, x), y) == (add_parsed(prefix))(
            (add_parsed(prefix))(v, y),
            x,
        ) by {
        let f = add_parsed(prefix);
        assert(f(f(v, x), y) =~= f(f(v, y), x));
    }
}

/// Which IDs a listing yields does not depend on the order it lists names
/// in: two listings of the same names, each without repeats, give the same
/// UUIDs in the same (ascending) order.
pub proof fn lemma_listed_uuids_order_free(a: Seq<Seq<char>>, b: Seq<Seq<char>>, prefix: Seq<char>)
    requires
        a.no_duplicates(),
        b.no_duplicates(),
        a.to_set() == b.to_set(),
    ensures
        listed_uuids(a, prefix) == listed_uuids(b, prefix),
{
    broadcast use vstd::seq_lib::group_to_multiset_ensures;
    broadcast use vstd::multiset::group_multiset_axioms;

    a.lemma_multiset_has_no_duplicates();
    b.lemma_multiset_has_no_duplicates();
    assert forall|x: Seq<char>| #[trigger] a.to_multiset().count(x) == b.to_multiset().count(x) by {
        assert(a.to_set().contains(x) <==> a.contains(x));
        assert(b.to_set().contains(x) <==> b.contains(x));
    }
    assert(a.to_multiset() =~= b.to_multiset());
    lemma_add_parsed_commutes(prefix);
    lemma_fold_left_permutation(a, b, add_parsed(prefix), Multiset::empty());
    lemma_parsed_multiset(a, prefix);
    lemma_parsed_multiset(b, prefix);
    let pa = parsed_uuids(a, prefix);
    let pb = parsed_uuids(b, prefix);
    assert(total_ordering(uuid_le()));
    pa.lemma_sort_by_ensures(uuid_le());
    pb.lemma_sort_by_ensures(uuid_le());
    lemma_sorted_unique(sorted_uuids(pa), sorted_uuids(pb), uuid_le());
}

} // verus!
