//! Why file names sort in stream order.
//!
//! A UUID's hex text has a fixed width and puts the most significant digit
//! first, so comparing the texts character by character compares the UUIDs
//! as numbers. An event's file name starts with that text, so two events'
//! file names sort like their IDs, and events with the same ID sort by their
//! type tags.

use vstd::prelude::*;
use vstd::arithmetic::power2::pow2;

use crate::events::envelope::{Event, EventKind};
use crate::events::project::ProjectEventKind;
use crate::events::status::StatusEventKind;
use crate::events::store::key_lt;
use crate::events::task::TaskEventKind;
use crate::shared::id::{hex_digit_char, id_text, uuid_hex, uuid_nibble};
use crate::shared::text::{lemma_seq_lt_irreflexive, seq_lt};
use crate::storage::fs::file_name_of;

verus! {

/// The number written by the first `k` hex digits of a UUID.
pub open spec fn leading(uuid: u128, k: nat) -> int {
    uuid as int / pow2((4 * (32 - k)) as nat) as int
}

proof fn lemma_pow2_nibbles(k: nat)
    requires
        k < 32,
    ensures
        pow2((4 * (32 - k)) as nat) == pow2((4 * (31 - k)) as nat) * 16,
        pow2((4 * (31 - k)) as nat) > 0,
{
    vstd::arithmetic::power2::lemma_pow2_adds((4 * (31 - k)) as nat, 4);
    vstd::arithmetic::power2::lemma2_to64();
    vstd::arithmetic::power2::lemma_pow2_pos((4 * (31 - k)) as nat);
    assert((4 * (31 - k)) as nat + 4 == (4 * (32 - k)) as nat);
}

/// One more digit: the leading number times sixteen plus the next digit.
proof fn lemma_leading_step(uuid: u128, k: nat)
    requires
        k < 32,
    ensures
        leading(uuid, k + 1) == 16 * leading(uuid, k) + uuid_nibble(uuid, k as int),
        0 <= uuid_nibble(uuid, k as int) < 16,
{
    lemma_pow2_nibbles(k);
    let p = pow2((4 * (31 - k)) as nat) as int;
    let x = uuid as int / p;
    assert((4 * (32 - (k + 1))) as nat == (4 * (31 - k)) as nat);
    assert(leading(uuid, k + 1) == x);
    vstd::arithmetic::div_mod::lemma_div_denominator(uuid as int, p, 16);
    assert(leading(uuid, k) == x / 16);
    vstd::arithmetic::div_mod::lemma_fundamental_div_mod(x, 16);
    assert(uuid_nibble(uuid, k as int) == x % 16);
}

/// No digits write zero, and all of them write the UUID.
proof fn lemma_leading_ends(uuid: u128)
    ensures
        leading(uuid, 0) == 0,
        leading(uuid, 32) == uuid as int,
{
    vstd::arithmetic::power2::lemma2_to64();
    vstd::arithmetic::power2::lemma2_to64_rest();
    vstd::arithmetic::power2::lemma_pow2_adds(64, 64);
    assert(pow2(128) == 0x1_0000_0000_0000_0000_0000_0000_0000_0000);
    assert(uuid as int / pow2(128) as int == 0) by (nonlinear_arith)
        requires
            0 <= uuid < 0x1_0000_0000_0000_0000_0000_0000_0000_0000,
            pow2(128) == 0x1_0000_0000_0000_0000_0000_0000_0000_0000,
    ;
    assert((4 * (32 - 0nat)) as nat == 128);
    assert((4 * (32 - 32nat)) as nat == 0);
}

/// Hex digit characters order like the digits they write.
proof fn lemma_digit_chars(d1: int, d2: int)
    requires
        0 <= d1 < 16,
        0 <= d2 < 16,
    ensures
        (hex_digit_char(d1) as int) < (hex_digit_char(d2) as int) <==> d1 < d2,
        hex_digit_char(d1) == hex_digit_char(d2) <==> d1 == d2,
{
}

/// Appending one character to two texts of the same length compares them by
/// the texts first, then by the characters.
proof fn lemma_seq_lt_push(x: Seq<char>, y: Seq<char>, c: char, d: char)
    requires
        x.len() == y.len(),
    ensures
        seq_lt(x.push(c), y.push(d)) <==> (seq_lt(x, y) || (x == y && (c as int) < (d as int))),
    decreases x.len(),
{
    if x.len() == 0 {
        assert(x.push(c) =~= seq![c]);
        assert(y.push(d) =~= seq![d]);
        assert(x =~= y);
        assert(seq![c].drop_first() =~= Seq::<char>::empty());
        assert(seq![d].drop_first() =~= Seq::<char>::empty());
        lemma_seq_lt_irreflexive(Seq::<char>::empty());
    } else {
        assert(x.push(c).drop_first() =~= x.drop_first().push(c));
        assert(y.push(d).drop_first() =~= y.drop_first().push(d));
        lemma_seq_lt_push(x.drop_first(), y.drop_first(), c, d);
        if x[0] == y[0] && x.drop_first() == y.drop_first() {
            assert forall|i: int| 0 <= i < x.len() implies x[i] == y[i] by {
                if i > 0 {
                    assert(x[i] == x.drop_first()[i - 1]);
                    assert(y[i] == y.drop_first()[i - 1]);
                }
            }
            assert(x =~= y);
        }
        if x == y {
            assert(x.drop_first() == y.drop_first());
        }
    }
}

/// Comparing the first `k` hex digits of two UUIDs compares the numbers they
/// write.
proof fn lemma_hex_prefix_order(a: u128, b: u128, k: nat)
    requires
        k <= 32,
    ensures
        seq_lt(uuid_hex(a).take(k as int), uuid_hex(b).take(k as int)) <==> leading(a, k) < leading(b, k),
        (uuid_hex(a).take(k as int) == uuid_hex(b).take(k as int)) <==> leading(a, k) == leading(b, k),
    decreases k,
{
    if k == 0 {
        lemma_leading_ends(a);
        lemma_leading_ends(b);
        assert(uuid_hex(a).take(0) =~= uuid_hex(b).take(0));
        lemma_seq_lt_irreflexive(uuid_hex(a).take(0));
    } else {
        let j = (k - 1) as nat;
        lemma_hex_prefix_order(a, b, j);
        lemma_leading_step(a, j);
        lemma_leading_step(b, j);
        let ha = uuid_hex(a);
        let hb = uuid_hex(b);
        let na = uuid_nibble(a, j as int);
        let nb = uuid_nibble(b, j as int);
        assert(ha.take(k as int) =~= ha.take(j as int).push(hex_digit_char(na)));
        assert(hb.take(k as int) =~= hb.take(j as int).push(hex_digit_char(nb)));
        lemma_seq_lt_push(ha.take(j as int), hb.take(j as int), hex_digit_char(na), hex_digit_char(nb));
        lemma_digit_chars(na, nb);
        let la = leading(a, j);
        let lb = leading(b, j);
        assert((16 * la + na < 16 * lb + nb) <==> (la < lb || (la == lb && na < nb))) by (nonlinear_arith)
            requires
                0 <= na < 16,
                0 <= nb < 16,
        ;
        assert((16 * la + na == 16 * lb + nb) <==> (la == lb && na == nb)) by (nonlinear_arith)
            requires
                0 <= na < 16,
                0 <= nb < 16,
        ;
        if ha.take(k as int) == hb.take(k as int) {
            assert(ha.take(k as int).drop_last() == hb.take(k as int).drop_last());
            assert(ha.take(k as int).drop_last() =~= ha.take(j as int));
            assert(hb.take(k as int).drop_last() =~= hb.take(j as int));
            assert(ha.take(k as int).last() == hb.take(k as int).last());
        }
    }
}

/// Hex text orders like the UUIDs it writes: comparing two UUIDs' texts
/// character by character compares the UUIDs, and equal texts write equal
/// UUIDs.
pub proof fn lemma_hex_order(a: u128, b: u128)
    ensures
        seq_lt(uuid_hex(a), uuid_hex(b)) <==> a < b,
        uuid_hex(a) == uuid_hex(b) <==> a == b,
{
    lemma_hex_prefix_order(a, b, 32);
    lemma_leading_ends(a);
    lemma_leading_ends(b);
    assert(uuid_hex(a).take(32) =~= uuid_hex(a));
    assert(uuid_hex(b).take(32) =~= uuid_hex(b));
}

/// Texts of the same length that differ compare the same with anything
/// appended to each.
proof fn lemma_seq_lt_prefix_decides(x: Seq<char>, y: Seq<char>, s: Seq<char>, t: Seq<char>)
    requires
        x.len() == y.len(),
        x != y,
    ensures
        seq_lt(x + s, y + t) <==> seq_lt(x, y),
    decreases x.len(),
{
    if x.len() == 0 {
        assert(x =~= y);
    } else {
        assert((x + s).drop_first() =~= x.drop_first() + s);
        assert((y + t).drop_first() =~= y.drop_first() + t);
        assert((x + s)[0] == x[0]);
        assert((y + t)[0] == y[0]);
        if x[0] == y[0] {
            if x.drop_first() == y.drop_first() {
                assert forall|i: int| 0 <= i < x.len() implies x[i] == y[i] by {
                    if i > 0 {
                        assert(x[i] == x.drop_first()[i - 1]);
                        assert(y[i] == y.drop_first()[i - 1]);
                    }
                }
                assert(x =~= y);
            }
            lemma_seq_lt_prefix_decides(x.drop_first(), y.drop_first(), s, t);
        }
    }
}

/// Whether every character of a type tag sorts after `.` (tags are lower
/// case words joined by `_`).
pub open spec fn tag_chars_ok(tag: Seq<char>) -> bool {
    forall|i: int| 0 <= i < tag.len() ==> ('.' as int) < (#[trigger] tag[i] as int)
}

/// With a shared prefix, the rest decides.
proof fn lemma_seq_lt_common_prefix(p: Seq<char>, s: Seq<char>, t: Seq<char>)
    ensures
        seq_lt(p + s, p + t) <==> seq_lt(s, t),
    decreases p.len(),
{
    if p.len() == 0 {
        assert(p + s =~= s);
        assert(p + t =~= t);
    } else {
        assert((p + s).drop_first() =~= p.drop_first() + s);
        assert((p + t).drop_first() =~= p.drop_first() + t);
        assert((p + s)[0] == p[0]);
        assert((p + t)[0] == p[0]);
        lemma_seq_lt_common_prefix(p.drop_first(), s, t);
    }
}

/// Two tags followed by `.json` compare as the tags do.
proof fn lemma_tag_then_extension(ta: Seq<char>, tb: Seq<char>)
    requires
        tag_chars_ok(ta),
        tag_chars_ok(tb),
    ensures
        seq_lt(ta + ".json"@, tb + ".json"@) <==> seq_lt(ta, tb),
    decreases ta.len(),
{
    reveal_strlit(".json");
    let ext = ".json"@;
    if ta.len() == 0 {
        if tb.len() == 0 {
            assert(ta =~= tb);
            lemma_seq_lt_irreflexive(ta + ext);
        } else {
            assert((ta + ext)[0] == '.');
            assert((tb + ext)[0] == tb[0]);
        }
    } else if tb.len() == 0 {
        assert((tb + ext)[0] == '.');
        assert((ta + ext)[0] == ta[0]);
    } else {
        assert((ta + ext)[0] == ta[0]);
        assert((tb + ext)[0] == tb[0]);
        assert((ta + ext).drop_first() =~= ta.drop_first() + ext);
        assert((tb + ext).drop_first() =~= tb.drop_first() + ext);
        assert(tag_chars_ok(ta.drop_first())) by {
            assert forall|i: int| 0 <= i < ta.drop_first().len() implies ('.' as int) < (
            #[trigger] ta.drop_first()[i] as int) by {
                assert(ta.drop_first()[i] == ta[i + 1]);
            }
        }
        assert(tag_chars_ok(tb.drop_first())) by {
            assert forall|i: int| 0 <= i < tb.drop_first().len() implies ('.' as int) < (
            #[trigger] tb.drop_first()[i] as int) by {
                assert(tb.drop_first()[i] == tb[i + 1]);
            }
        }
        lemma_tag_then_extension(ta.drop_first(), tb.drop_first());
    }
}

/// File names sort in stream order: for events whose type tags are lower
/// case words, one event's file name sorts before another's exactly when it
/// comes first in the stream (by ID, then by type tag).
pub proof fn lemma_file_names_sort_like_streams<K: EventKind>(a: Event<K>, b: Event<K>)
    requires
        tag_chars_ok(a.kind.tag()),
        tag_chars_ok(b.kind.tag()),
    ensures
        seq_lt(file_name_of(a), file_name_of(b)) <==> key_lt(a, b),
{
    reveal_strlit("");
    let ha = uuid_hex(a.id.0);
    let hb = uuid_hex(b.id.0);
    assert(id_text(""@, a.id.0) =~= ha);
    assert(id_text(""@, b.id.0) =~= hb);
    let ra = "-"@ + a.kind.tag() + ".json"@;
    let rb = "-"@ + b.kind.tag() + ".json"@;
    assert(file_name_of(a) =~= ha + ra);
    assert(file_name_of(b) =~= hb + rb);
    lemma_hex_order(a.id.0, b.id.0);
    if a.id.0 != b.id.0 {
        lemma_seq_lt_prefix_decides(ha, hb, ra, rb);
    } else {
        assert(ha + ra =~= (ha + "-"@) + (a.kind.tag() + ".json"@));
        assert(hb + rb =~= (ha + "-"@) + (b.kind.tag() + ".json"@));
        lemma_seq_lt_common_prefix(ha + "-"@, a.kind.tag() + ".json"@, b.kind.tag() + ".json"@);
        lemma_tag_then_extension(a.kind.tag(), b.kind.tag());
    }
}

/// Every project event's type tag is a lower case word.
pub proof fn lemma_project_tags(kind: ProjectEventKind)
    ensures
        tag_chars_ok(kind.tag()),
{
    reveal_strlit("created");
    reveal_strlit("renamed");
    reveal_strlit("closed");
    reveal_strlit("reopened");
    reveal_strlit("snapshot");
}

/// Every task event's type tag is made of lower case words joined by `_`.
pub proof fn lemma_task_tags(kind: TaskEventKind)
    ensures
        tag_chars_ok(kind.tag()),
{
    reveal_strlit("created");
    reveal_strlit("renamed");
    reveal_strlit("moved");
    reveal_strlit("closed");
    reveal_strlit("reopened");
    reveal_strlit("description_updated");
    reveal_strlit("status_changed");
    reveal_strlit("snapshot");
}

/// Every status event's type tag is made of lower case words joined by `_`.
pub proof fn lemma_status_tags(kind: StatusEventKind)
    ensures
        tag_chars_ok(kind.tag()),
{
    reveal_strlit("created");
    reveal_strlit("renamed");
    reveal_strlit("description_updated");
    reveal_strlit("kind_changed");
    reveal_strlit("removed");
    reveal_strlit("snapshot");
}

} // verus!
