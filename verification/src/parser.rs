//! The module reader of the compiler core.
//!
//! A module is an ordered sequence of 32-bit words: a five-word header
//! followed by instructions, each carrying its word count in the upper half
//! of its first word.  The reader folds the instructions that feed the
//! reflection tables into an [`Engine`] and skips everything else; a module
//! whose framing is broken, whose strings are unterminated, or which exceeds
//! the engine's fixed limits is rejected as a whole.
//!
//! `parse_model` is the specification of the whole reader: the executable
//! reader returns an engine if and only if `parse_model` accepts the words,
//! and the engine's state is exactly the accepted model.

use crate::engine::CompositeModel;
use crate::engine::CompositeRec;
use crate::engine::ConstantRec;
use crate::engine::DecorationRec;
use crate::engine::Engine;
use crate::engine::EngineModel;
use crate::engine::EntryPointRec;
use crate::engine::EpModel;
use crate::engine::KeySpec;
use crate::engine::MemberDecorationRec;
use crate::engine::MemberNameModel;
use crate::engine::MemberNameRec;
use crate::engine::NameModel;
use crate::engine::NameRec;
use crate::engine::RawGlslOptions;
use crate::engine::RawHlslOptions;
use crate::engine::RawMslOptions;
use crate::engine::TargetKind;
use crate::engine::TypeModel;
use crate::engine::TypeRec;
use crate::engine::VariableRec;
use crate::engine::glsl_initial_options;
use crate::engine::hlsl_initial_options;
use crate::engine::lemma_tbl_first_match;
use crate::engine::lemma_tbl_no_match;
use crate::engine::lemma_tbl_push;
use crate::engine::model_wf;
use crate::engine::msl_initial_options;
use crate::engine::name_ok;
use crate::engine::tbl_lookup;
use crate::engine::tbl_unique;
use crate::engine::MAX_ENTRY_POINTS;
use crate::engine::MAX_MODULE_WORDS;
use crate::engine::MAX_NAME;
use crate::engine::MAX_TABLE;
use crate::engine::MAX_VARIABLES;
use vstd::prelude::*;

verus! {

/// First header word of every module.
pub const MODULE_MAGIC: u32 = 0x0723_0203;

pub const OP_NAME: u32 = 5;

pub const OP_MEMBER_NAME: u32 = 6;

pub const OP_ENTRY_POINT: u32 = 15;

pub const OP_EXECUTION_MODE: u32 = 16;

pub const OP_TYPE_VOID: u32 = 19;

pub const OP_TYPE_BOOL: u32 = 20;

pub const OP_TYPE_INT: u32 = 21;

pub const OP_TYPE_FLOAT: u32 = 22;

pub const OP_TYPE_VECTOR: u32 = 23;

pub const OP_TYPE_MATRIX: u32 = 24;

pub const OP_TYPE_IMAGE: u32 = 25;

pub const OP_TYPE_SAMPLER: u32 = 26;

pub const OP_TYPE_SAMPLED_IMAGE: u32 = 27;

pub const OP_TYPE_ARRAY: u32 = 28;

pub const OP_TYPE_RUNTIME_ARRAY: u32 = 29;

pub const OP_TYPE_STRUCT: u32 = 30;

pub const OP_TYPE_POINTER: u32 = 32;

pub const OP_CONSTANT: u32 = 43;

pub const OP_SPEC_CONSTANT_TRUE: u32 = 48;

pub const OP_SPEC_CONSTANT_FALSE: u32 = 49;

pub const OP_SPEC_CONSTANT: u32 = 50;

pub const OP_SPEC_CONSTANT_COMPOSITE: u32 = 51;

pub const OP_VARIABLE: u32 = 59;

pub const OP_DECORATE: u32 = 71;

pub const OP_MEMBER_DECORATE: u32 = 72;

/// Execution mode: explicit local workgroup size.
pub const MODE_LOCAL_SIZE: u32 = 17;

/// Reduced base kinds of the engine's type records.
pub const BASE_UNKNOWN: u32 = 0;

pub const BASE_VOID: u32 = 1;

pub const BASE_BOOLEAN: u32 = 2;

pub const BASE_CHAR: u32 = 3;

pub const BASE_INT: u32 = 4;

pub const BASE_UINT: u32 = 5;

pub const BASE_INT64: u32 = 6;

pub const BASE_UINT64: u32 = 7;

pub const BASE_ATOMIC_COUNTER: u32 = 8;

pub const BASE_HALF: u32 = 9;

pub const BASE_FLOAT: u32 = 10;

pub const BASE_DOUBLE: u32 = 11;

pub const BASE_STRUCT: u32 = 12;

pub const BASE_IMAGE: u32 = 13;

pub const BASE_SAMPLED_IMAGE: u32 = 14;

pub const BASE_SAMPLER: u32 = 15;

pub const BASE_SBYTE: u32 = 16;

pub const BASE_UBYTE: u32 = 17;

pub const BASE_SHORT: u32 = 18;

pub const BASE_USHORT: u32 = 19;

/// Byte `k` (little-endian, `0 <= k < 4`) of the word `w`.
pub open spec fn word_byte(w: u32, k: int) -> u8 {
    if k == 0 {
        (w % 0x100) as u8
    } else if k == 1 {
        ((w / 0x100) % 0x100) as u8
    } else if k == 2 {
        ((w / 0x10000) % 0x100) as u8
    } else {
        (w / 0x1000000) as u8
    }
}

/// The bytes of the words `words[s .. e]`, four per word, little-endian.
pub open spec fn words_bytes(words: Seq<u32>, s: int, e: int) -> Seq<u8>
    decreases e - s,
{
    if s < 0 || s >= e || e > words.len() {
        Seq::empty()
    } else {
        seq![
            word_byte(words[s], 0),
            word_byte(words[s], 1),
            word_byte(words[s], 2),
            word_byte(words[s], 3),
        ] + words_bytes(words, s + 1, e)
    }
}

/// Extending the word range by one word appends that word's four bytes.
pub proof fn lemma_words_bytes_snoc(words: Seq<u32>, s: int, w: int)
    requires
        0 <= s <= w < words.len(),
    ensures
        words_bytes(words, s, w + 1) == words_bytes(words, s, w) + seq![
            word_byte(words[w], 0),
            word_byte(words[w], 1),
            word_byte(words[w], 2),
            word_byte(words[w], 3),
        ],
    decreases w - s,
{
    if s == w {
        assert(words_bytes(words, s, w) =~= Seq::empty());
        assert(words_bytes(words, w + 1, w + 1) =~= Seq::empty());
        assert(words_bytes(words, s, w + 1) =~= words_bytes(words, s, w) + seq![
            word_byte(words[w], 0),
            word_byte(words[w], 1),
            word_byte(words[w], 2),
            word_byte(words[w], 3),
        ]);
    } else {
        lemma_words_bytes_snoc(words, s + 1, w);
        assert(words_bytes(words, s, w + 1) =~= words_bytes(words, s, w) + seq![
            word_byte(words[w], 0),
            word_byte(words[w], 1),
            word_byte(words[w], 2),
            word_byte(words[w], 3),
        ]);
    }
}

/// The length of the byte expansion is four bytes per word.
pub proof fn lemma_words_bytes_len(words: Seq<u32>, s: int, e: int)
    requires
        0 <= s,
        e <= words.len(),
    ensures
        s <= e ==> words_bytes(words, s, e).len() == 4 * (e - s),
        s > e ==> words_bytes(words, s, e).len() == 0,
    decreases e - s,
{
    if s < e {
        lemma_words_bytes_len(words, s + 1, e);
    }
}

/// Index of the first zero byte of `b`, or `b.len()` when there is none.
pub open spec fn first_nul(b: Seq<u8>) -> int
    decreases b.len(),
{
    if b.len() == 0 {
        0
    } else if b[0] == 0 {
        0
    } else {
        1 + first_nul(b.drop_first())
    }
}

/// What `first_nul` returns: the first index holding a zero byte, after a
/// zero-free prefix.
pub proof fn lemma_first_nul(b: Seq<u8>)
    ensures
        0 <= first_nul(b) <= b.len(),
        forall|k: int| 0 <= k < first_nul(b) ==> b[k] != 0,
        first_nul(b) < b.len() ==> b[first_nul(b)] == 0,
    decreases b.len(),
{
    if b.len() > 0 && b[0] != 0 {
        let t = b.drop_first();
        lemma_first_nul(t);
        assert forall|k: int| 0 <= k < first_nul(b) implies b[k] != 0 by {
            if k > 0 {
                assert(t[k - 1] != 0);
            }
        }
    }
}

/// A zero-free prefix up to an index holding zero pins `first_nul` to that
/// index.
pub proof fn lemma_first_nul_at(b: Seq<u8>, n: int)
    requires
        0 <= n < b.len(),
        forall|k: int| 0 <= k < n ==> b[k] != 0,
        b[n] == 0,
    ensures
        first_nul(b) == n,
    decreases n,
{
    if n > 0 {
        let t = b.drop_first();
        assert forall|k: int| 0 <= k < n - 1 implies t[k] != 0 by {
            assert(t[k] == b[k + 1]);
        }
        assert(t[n - 1] == b[n]);
        lemma_first_nul_at(t, n - 1);
    }
}

/// The literal string stored in the words `words[s .. e]`: their bytes up to
/// the first zero.  It is accepted only when a terminator exists and the
/// string is an engine-acceptable name (bounded, printable ASCII).
pub open spec fn lit_string(words: Seq<u32>, s: int, e: int) -> Option<Seq<u8>> {
    let b = words_bytes(words, s, e);
    let n = first_nul(b);
    if s >= e {
        None
    } else if n == b.len() {
        None
    } else if n > MAX_NAME {
        None
    } else if exists|k: int| 0 <= k < n && b[k] >= 128 {
        None
    } else {
        Some(b.take(n))
    }
}

/// An accepted literal string is an engine-acceptable name.
pub proof fn lemma_lit_string_name_ok(words: Seq<u32>, s: int, e: int)
    requires
        lit_string(words, s, e) is Some,
    ensures
        name_ok(lit_string(words, s, e)->Some_0),
{
    let b = words_bytes(words, s, e);
    let n = first_nul(b);
    lemma_first_nul(b);
    let name = b.take(n);
    assert forall|k: int| 0 <= k < name.len() implies 0 < #[trigger] name[k] < 128 by {
        assert(name[k] == b[k]);
        assert(b[k] != 0);
        assert(!(0 <= k < n && b[k] >= 128));
    }
}

/// Reads the literal string stored in `words[s .. e]`; the reply agrees
/// exactly with [`lit_string`].
pub(crate) fn read_lit_string(words: &Vec<u32>, s: usize, e: usize) -> (r: Option<Vec<u8>>)
    requires
        s <= e <= words@.len(),
    ensures
        match r {
            Some(v) => lit_string(words@, s as int, e as int) == Some(v@) && name_ok(v@),
            None => lit_string(words@, s as int, e as int) is None,
        },
{
    let ghost b = words_bytes(words@, s as int, e as int);
    proof {
        lemma_words_bytes_len(words@, s as int, e as int);
        lemma_first_nul(b);
    }
    if s >= e {
        return None;
    }
    let mut bytes: Vec<u8> = Vec::new();
    let mut w: usize = s;
    while w < e
        invariant
            s <= w <= e <= words@.len(),
            b == words_bytes(words@, s as int, e as int),
            bytes@ == words_bytes(words@, s as int, w as int),
        decreases e - w,
    {
        let word = words[w];
        bytes.push((word % 0x100) as u8);
        bytes.push((word / 0x100 % 0x100) as u8);
        bytes.push((word / 0x10000 % 0x100) as u8);
        bytes.push((word / 0x1000000) as u8);
        proof {
            lemma_words_bytes_snoc(words@, s as int, w as int);
            assert(bytes@ =~= words_bytes(words@, s as int, w as int + 1));
        }
        w = w + 1;
    }
    proof {
        assert(bytes@ == b);
    }
    let total = bytes.len();
    let mut name: Vec<u8> = Vec::new();
    let mut k: usize = 0;
    while k < total
        invariant
            b == words_bytes(words@, s as int, e as int),
            s < e,
            bytes@ == b,
            total == b.len(),
            k <= total,
            k <= MAX_NAME,
            name@ == b.take(k as int),
            forall|x: int| 0 <= x < k ==> 0 < #[trigger] b[x] < 128,
        decreases total - k,
    {
        let c = bytes[k];
        if c == 0 {
            proof {
                lemma_first_nul_at(b, k as int);
                assert(b.take(k as int) == lit_string(words@, s as int, e as int)->Some_0);
            }
            return Some(name);
        }
        if c >= 128 {
            proof {
                lemma_first_nul(b);
                if first_nul(b) < b.len() && first_nul(b) <= MAX_NAME {
                    assert(k < first_nul(b));
                    assert(exists|x: int| 0 <= x < first_nul(b) && b[x] >= 128);
                }
            }
            return None;
        }
        if k >= MAX_NAME as usize {
            proof {
                lemma_first_nul(b);
                assert(first_nul(b) > MAX_NAME || first_nul(b) == b.len());
            }
            return None;
        }
        name.push(c);
        proof {
            assert(name@ =~= b.take(k as int + 1));
        }
        k = k + 1;
    }
    proof {
        lemma_first_nul(b);
        assert(first_nul(b) == b.len());
    }
    None
}

} // verus!

verus! {

/// Appending a record with a fresh key keeps a table duplicate-free.
pub proof fn lemma_tbl_push_unique<T: KeySpec>(s: Seq<T>, r: T)
    requires
        tbl_unique(s),
        forall|i: int| 0 <= i < s.len() ==> (#[trigger] s[i].key()) != r.key(),
    ensures
        tbl_unique(s.push(r)),
{
    let s2 = s.push(r);
    assert forall|a: int, b: int|
        0 <= a < b < s2.len() implies (#[trigger] s2[a].key()) != (#[trigger] s2[b].key()) by {
        if b < s.len() {
            assert(s2[a] == s[a]);
            assert(s2[b] == s[b]);
            assert(s[a].key() != s[b].key());
        } else {
            assert(s2[b] == r);
            assert(s2[a] == s[a]);
            assert(s[a].key() != r.key());
        }
    }
}

/// Insert-unless-present for the decoration table: an already-decorated key
/// is left as it is; a fresh one is appended while the table has room.
pub open spec fn deco_skip_insert(s: Seq<DecorationRec>, rec: DecorationRec) -> Option<
    Seq<DecorationRec>,
> {
    if tbl_lookup(s, rec.key()) is Some {
        Some(s)
    } else if s.len() < MAX_TABLE {
        Some(s.push(rec))
    } else {
        None
    }
}

/// Insert-unless-present for the member-decoration table.
pub open spec fn member_deco_skip_insert(
    s: Seq<MemberDecorationRec>,
    rec: MemberDecorationRec,
) -> Option<Seq<MemberDecorationRec>> {
    if tbl_lookup(s, rec.key()) is Some {
        Some(s)
    } else if s.len() < MAX_TABLE {
        Some(s.push(rec))
    } else {
        None
    }
}

/// Insert-unless-present for the name table.
pub open spec fn name_skip_insert(s: Seq<NameModel>, rec: NameModel) -> Option<Seq<NameModel>> {
    if tbl_lookup(s, rec.key()) is Some {
        Some(s)
    } else if s.len() < MAX_TABLE {
        Some(s.push(rec))
    } else {
        None
    }
}

/// Insert-unless-present for the member-name table.
pub open spec fn member_name_skip_insert(s: Seq<MemberNameModel>, rec: MemberNameModel) -> Option<
    Seq<MemberNameModel>,
> {
    if tbl_lookup(s, rec.key()) is Some {
        Some(s)
    } else if s.len() < MAX_TABLE {
        Some(s.push(rec))
    } else {
        None
    }
}

/// Insert-unless-present for the constant table.
pub open spec fn constant_skip_insert(s: Seq<ConstantRec>, rec: ConstantRec) -> Option<
    Seq<ConstantRec>,
> {
    if tbl_lookup(s, rec.key()) is Some {
        Some(s)
    } else if s.len() < MAX_TABLE {
        Some(s.push(rec))
    } else {
        None
    }
}

/// Records an `OpDecorate`: the first decoration of a key stands.
pub(crate) fn add_decoration(eng: &mut Engine, rec: DecorationRec) -> (ok: bool)
    requires
        old(eng).wf(),
    ensures
        final(eng).wf(),
        ok <==> deco_skip_insert(old(eng).model().decorations, rec) is Some,
        ok ==> final(eng).model() == old(eng).model().with_decorations(
            deco_skip_insert(old(eng).model().decorations, rec)->Some_0,
        ),
        !ok ==> final(eng).model() == old(eng).model(),
    {
        let n = eng.decorations.len();
        let mut j: usize = 0;
        while j < n
            invariant
                old(eng).wf(),
                eng == old(eng),
                n == eng.decorations@.len(),
                j <= n,
                forall|i: int| 0 <= i < j ==> (#[trigger] eng.decorations@[i].key()) != rec.key(),
            decreases n - j,
        {
            let cur = eng.decorations[j];
            if cur.id == rec.id && cur.decoration == rec.decoration {
                proof {
                    assert(eng.decorations@[j as int].key() == rec.key());
                    lemma_tbl_first_match(eng.decorations@, j as int);
                }
                return true;
            }
            j = j + 1;
        }
        proof {
            lemma_tbl_no_match(eng.decorations@, rec.key());
        }
        if eng.decorations.len() < MAX_TABLE as usize {
            proof {
                assert(tbl_unique(eng.decorations@));
                lemma_tbl_push_unique(eng.decorations@, rec);
            }
            eng.decorations.push(rec);
            true
        } else {
            false
        }
    }

/// Records an `OpMemberDecorate`: the first decoration of a key stands.
pub(crate) fn add_member_decoration(eng: &mut Engine, rec: MemberDecorationRec) -> (ok: bool)
    requires
        old(eng).wf(),
    ensures
        final(eng).wf(),
        ok <==> member_deco_skip_insert(old(eng).model().member_decorations, rec) is Some,
        ok ==> final(eng).model() == old(eng).model().with_member_decorations(
            member_deco_skip_insert(old(eng).model().member_decorations, rec)->Some_0,
        ),
        !ok ==> final(eng).model() == old(eng).model(),
    {
        let n = eng.member_decorations.len();
        let mut j: usize = 0;
        while j < n
            invariant
                old(eng).wf(),
                eng == old(eng),
                n == eng.member_decorations@.len(),
                j <= n,
                forall|i: int|
                    0 <= i < j ==> (#[trigger] eng.member_decorations@[i].key()) != rec.key(),
            decreases n - j,
        {
            let cur = eng.member_decorations[j];
            if cur.id == rec.id && cur.member == rec.member && cur.decoration == rec.decoration {
                proof {
                    assert(eng.member_decorations@[j as int].key() == rec.key());
                    lemma_tbl_first_match(eng.member_decorations@, j as int);
                }
                return true;
            }
            j = j + 1;
        }
        proof {
            lemma_tbl_no_match(eng.member_decorations@, rec.key());
        }
        if eng.member_decorations.len() < MAX_TABLE as usize {
            proof {
                assert(tbl_unique(eng.member_decorations@));
                lemma_tbl_push_unique(eng.member_decorations@, rec);
            }
            eng.member_decorations.push(rec);
            true
        } else {
            false
        }
    }

/// Records an `OpName`: the first name of an id stands.
pub(crate) fn add_name(eng: &mut Engine, id: u32, name: Vec<u8>) -> (ok: bool)
    requires
        old(eng).wf(),
        name_ok(name@),
    ensures
        final(eng).wf(),
        ok <==> name_skip_insert(old(eng).model().names, NameModel { id, name: name@ }) is Some,
        ok ==> final(eng).model() == old(eng).model().with_names(
            name_skip_insert(old(eng).model().names, NameModel { id, name: name@ })->Some_0,
        ),
        !ok ==> final(eng).model() == old(eng).model(),
    {
        let n = eng.names.len();
        let mut j: usize = 0;
        while j < n
            invariant
                old(eng).wf(),
                eng == old(eng),
                name_ok(name@),
                n == eng.names@.len(),
                j <= n,
                forall|i: int| 0 <= i < j ==> (#[trigger] eng.names@[i].id) != id,
            decreases n - j,
        {
            if eng.names[j].id == id {
                proof {
                    let ms = eng.names@.map_values(|r: NameRec| r.model());
                    assert forall|i: int| 0 <= i < j as int implies (#[trigger] ms[i].key()) != (
                    id, 0u32, 0u32) by {
                        assert(ms[i] == eng.names@[i].model());
                    }
                    assert(ms[j as int] == eng.names@[j as int].model());
                    assert(ms[j as int].key() == (id, 0u32, 0u32));
                    lemma_tbl_first_match(ms, j as int);
                }
                return true;
            }
            j = j + 1;
        }
        let ghost ms_old = eng.names@.map_values(|r: NameRec| r.model());
        let ghost nm = NameModel { id, name: name@ };
        proof {
            assert forall|i: int| 0 <= i < ms_old.len() implies (#[trigger] ms_old[i].key()) != (
            id, 0u32, 0u32) by {
                assert(ms_old[i] == eng.names@[i].model());
            }
            lemma_tbl_no_match(ms_old, (id, 0u32, 0u32));
        }
        if eng.names.len() < MAX_TABLE as usize {
            proof {
                assert(tbl_unique(ms_old));
                lemma_tbl_push_unique(ms_old, nm);
            }
            eng.names.push(NameRec { id, name });
            proof {
                let ms_new = eng.names@.map_values(|r: NameRec| r.model());
                assert(ms_new =~= ms_old.push(nm));
                assert forall|i: int|
                    0 <= i < ms_new.len() implies name_ok(#[trigger] ms_new[i].name) by {
                    if i < ms_old.len() {
                        assert(ms_new[i] == ms_old[i]);
                        assert(name_ok(old(eng).model().names[i].name));
                    }
                }
            }
            true
        } else {
            false
        }
    }

/// Records an `OpMemberName`: the first name of a member stands.
pub(crate) fn add_member_name(eng: &mut Engine, id: u32, member: u32, name: Vec<u8>) -> (ok: bool)
    requires
        old(eng).wf(),
        name_ok(name@),
    ensures
        final(eng).wf(),
        ok <==> (member_name_skip_insert(
            old(eng).model().member_names,
            MemberNameModel { id, member, name: name@ },
        ) is Some),
        ok ==> final(eng).model() == (EngineModel {
            member_names: member_name_skip_insert(
                old(eng).model().member_names,
                MemberNameModel { id, member, name: name@ },
            )->Some_0,
            ..old(eng).model()
        }),
        !ok ==> final(eng).model() == old(eng).model(),
    {
        let n = eng.member_names.len();
        let mut j: usize = 0;
        while j < n
            invariant
                old(eng).wf(),
                eng == old(eng),
                name_ok(name@),
                n == eng.member_names@.len(),
                j <= n,
                forall|i: int|
                    0 <= i < j ==> !((#[trigger] eng.member_names@[i].id) == id
                        && eng.member_names@[i].member == member),
            decreases n - j,
        {
            let hit = eng.member_names[j].id == id && eng.member_names[j].member == member;
            if hit {
                proof {
                    let ms = eng.member_names@.map_values(|r: MemberNameRec| r.model());
                    assert forall|i: int| 0 <= i < j as int implies (#[trigger] ms[i].key()) != (
                    id, member, 0u32) by {
                        assert(ms[i] == eng.member_names@[i].model());
                    }
                    assert(ms[j as int] == eng.member_names@[j as int].model());
                    assert(ms[j as int].key() == (id, member, 0u32));
                    lemma_tbl_first_match(ms, j as int);
                }
                return true;
            }
            j = j + 1;
        }
        let ghost ms_old = eng.member_names@.map_values(|r: MemberNameRec| r.model());
        let ghost nm = MemberNameModel { id, member, name: name@ };
        proof {
            assert forall|i: int| 0 <= i < ms_old.len() implies (#[trigger] ms_old[i].key()) != (
            id, member, 0u32) by {
                assert(ms_old[i] == eng.member_names@[i].model());
            }
            lemma_tbl_no_match(ms_old, (id, member, 0u32));
        }
        if eng.member_names.len() < MAX_TABLE as usize {
            proof {
                assert(tbl_unique(ms_old));
                lemma_tbl_push_unique(ms_old, nm);
            }
            eng.member_names.push(MemberNameRec { id, member, name });
            proof {
                let ms_new = eng.member_names@.map_values(|r: MemberNameRec| r.model());
                assert(ms_new =~= ms_old.push(nm));
                assert forall|i: int|
                    0 <= i < ms_new.len() implies name_ok(#[trigger] ms_new[i].name) by {
                    if i < ms_old.len() {
                        assert(ms_new[i] == ms_old[i]);
                        assert(name_ok(old(eng).model().member_names[i].name));
                    }
                }
            }
            true
        } else {
            false
        }
    }

/// Records a scalar constant: the first definition of an id stands.
pub(crate) fn add_constant(eng: &mut Engine, rec: ConstantRec) -> (ok: bool)
    requires
        old(eng).wf(),
    ensures
        final(eng).wf(),
        ok <==> constant_skip_insert(old(eng).model().constants, rec) is Some,
        ok ==> final(eng).model() == old(eng).model().with_constants(
            constant_skip_insert(old(eng).model().constants, rec)->Some_0,
        ),
        !ok ==> final(eng).model() == old(eng).model(),
    {
        let n = eng.constants.len();
        let mut j: usize = 0;
        while j < n
            invariant
                old(eng).wf(),
                eng == old(eng),
                n == eng.constants@.len(),
                j <= n,
                forall|i: int| 0 <= i < j ==> (#[trigger] eng.constants@[i].id) != rec.id,
            decreases n - j,
        {
            if eng.constants[j].id == rec.id {
                proof {
                    assert forall|i: int|
                        0 <= i < j as int implies (#[trigger] eng.constants@[i].key())
                        != rec.key() by {}
                    assert(eng.constants@[j as int].key() == rec.key());
                    lemma_tbl_first_match(eng.constants@, j as int);
                }
                return true;
            }
            j = j + 1;
        }
        proof {
            assert forall|i: int|
                0 <= i < eng.constants@.len() implies (#[trigger] eng.constants@[i].key())
                != rec.key() by {}
            lemma_tbl_no_match(eng.constants@, rec.key());
        }
        if eng.constants.len() < MAX_TABLE as usize {
            proof {
                assert(tbl_unique(eng.constants@));
                lemma_tbl_push_unique(eng.constants@, rec);
            }
            eng.constants.push(rec);
            true
        } else {
            false
        }
    }

} // verus!

verus! {

/// Appends a record while the table is under its cap.
pub open spec fn capped_push<T>(s: Seq<T>, rec: T, cap: int) -> Option<Seq<T>> {
    if s.len() < cap {
        Some(s.push(rec))
    } else {
        None
    }
}

/// Records an `OpEntryPoint`.
pub(crate) fn add_entry_point(eng: &mut Engine, rec: EntryPointRec) -> (ok: bool)
    requires
        old(eng).wf(),
        name_ok(rec.name@),
    ensures
        final(eng).wf(),
        ok <==> (capped_push(
            old(eng).model().entry_points,
            rec.model(),
            MAX_ENTRY_POINTS as int,
        ) is Some),
        ok ==> final(eng).model() == (EngineModel {
            entry_points: old(eng).model().entry_points.push(rec.model()),
            ..old(eng).model()
        }),
        !ok ==> final(eng).model() == old(eng).model(),
{
    if eng.entry_points.len() < MAX_ENTRY_POINTS as usize {
        let ghost ms_old = eng.entry_points@.map_values(|r: EntryPointRec| r.model());
        let ghost rm = rec.model();
        eng.entry_points.push(rec);
        proof {
            let ms_new = eng.entry_points@.map_values(|r: EntryPointRec| r.model());
            assert(ms_new =~= ms_old.push(rm));
            assert forall|i: int|
                0 <= i < ms_new.len() implies name_ok(#[trigger] ms_new[i].name) by {
                if i < ms_old.len() {
                    assert(ms_new[i] == ms_old[i]);
                    assert(name_ok(old(eng).model().entry_points[i].name));
                }
            }
        }
        true
    } else {
        false
    }
}

/// Records a type declaration.
pub(crate) fn add_type(eng: &mut Engine, rec: TypeRec) -> (ok: bool)
    requires
        old(eng).wf(),
    ensures
        final(eng).wf(),
        ok <==> (capped_push(old(eng).model().types, rec.model(), MAX_TABLE as int) is Some),
        ok ==> final(eng).model() == (EngineModel {
            types: old(eng).model().types.push(rec.model()),
            ..old(eng).model()
        }),
        !ok ==> final(eng).model() == old(eng).model(),
{
    if eng.types.len() < MAX_TABLE as usize {
        let ghost ms_old = eng.types@.map_values(|r: TypeRec| r.model());
        let ghost rm = rec.model();
        eng.types.push(rec);
        proof {
            let ms_new = eng.types@.map_values(|r: TypeRec| r.model());
            assert(ms_new =~= ms_old.push(rm));
        }
        true
    } else {
        false
    }
}

/// Records a module-scope variable.
pub(crate) fn add_variable(eng: &mut Engine, rec: VariableRec) -> (ok: bool)
    requires
        old(eng).wf(),
    ensures
        final(eng).wf(),
        ok <==> (capped_push(old(eng).model().variables, rec, MAX_VARIABLES as int) is Some),
        ok ==> final(eng).model() == (EngineModel {
            variables: old(eng).model().variables.push(rec),
            ..old(eng).model()
        }),
        !ok ==> final(eng).model() == old(eng).model(),
{
    if eng.variables.len() < MAX_VARIABLES as usize {
        eng.variables.push(rec);
        true
    } else {
        false
    }
}

/// Records a specialization-constant composite.
pub(crate) fn add_composite(eng: &mut Engine, rec: CompositeRec) -> (ok: bool)
    requires
        old(eng).wf(),
    ensures
        final(eng).wf(),
        ok <==> (capped_push(old(eng).model().composites, rec.model(), MAX_TABLE as int) is Some),
        ok ==> final(eng).model() == (EngineModel {
            composites: old(eng).model().composites.push(rec.model()),
            ..old(eng).model()
        }),
        !ok ==> final(eng).model() == old(eng).model(),
{
    if eng.composites.len() < MAX_TABLE as usize {
        let ghost ms_old = eng.composites@.map_values(|r: CompositeRec| r.model());
        let ghost rm = rec.model();
        eng.composites.push(rec);
        proof {
            let ms_new = eng.composites@.map_values(|r: CompositeRec| r.model());
            assert(ms_new =~= ms_old.push(rm));
        }
        true
    } else {
        false
    }
}

/// The entry-point table with the workgroup size of the first entry point of
/// id `id` replaced; without such an entry point, the table unchanged.
pub open spec fn eps_set_local_size(eps: Seq<EpModel>, id: u32, x: u32, y: u32, z: u32) -> Seq<
    EpModel,
>
    decreases eps.len(),
{
    if eps.len() == 0 {
        eps
    } else if eps[0].id == id {
        seq![EpModel { wg_x: x, wg_y: y, wg_z: z, ..eps[0] }] + eps.drop_first()
    } else {
        seq![eps[0]] + eps_set_local_size(eps.drop_first(), id, x, y, z)
    }
}

/// With the first match at `j`, `eps_set_local_size` is an update at `j`.
pub proof fn lemma_eps_sls_at(eps: Seq<EpModel>, id: u32, x: u32, y: u32, z: u32, j: int)
    requires
        0 <= j < eps.len(),
        eps[j].id == id,
        forall|i: int| 0 <= i < j ==> (#[trigger] eps[i].id) != id,
    ensures
        eps_set_local_size(eps, id, x, y, z) == eps.update(
            j,
            EpModel { wg_x: x, wg_y: y, wg_z: z, ..eps[j] },
        ),
    decreases j,
{
    if j == 0 {
        assert(eps_set_local_size(eps, id, x, y, z) =~= eps.update(
            0,
            EpModel { wg_x: x, wg_y: y, wg_z: z, ..eps[0] },
        ));
    } else {
        let t = eps.drop_first();
        assert forall|i: int| 0 <= i < j - 1 implies (#[trigger] t[i].id) != id by {
            assert(t[i] == eps[i + 1]);
        }
        assert(t[j - 1] == eps[j]);
        lemma_eps_sls_at(t, id, x, y, z, j - 1);
        assert(eps_set_local_size(eps, id, x, y, z) =~= eps.update(
            j,
            EpModel { wg_x: x, wg_y: y, wg_z: z, ..eps[j] },
        ));
    }
}

/// With no match, `eps_set_local_size` changes nothing.
pub proof fn lemma_eps_sls_none(eps: Seq<EpModel>, id: u32, x: u32, y: u32, z: u32)
    requires
        forall|i: int| 0 <= i < eps.len() ==> (#[trigger] eps[i].id) != id,
    ensures
        eps_set_local_size(eps, id, x, y, z) == eps,
    decreases eps.len(),
{
    if eps.len() > 0 {
        let t = eps.drop_first();
        assert forall|i: int| 0 <= i < t.len() implies (#[trigger] t[i].id) != id by {
            assert(t[i] == eps[i + 1]);
        }
        lemma_eps_sls_none(t, id, x, y, z);
        assert(eps_set_local_size(eps, id, x, y, z) =~= eps);
    }
}

/// Records an `OpExecutionMode` with an explicit workgroup size.
pub(crate) fn set_local_size(eng: &mut Engine, id: u32, x: u32, y: u32, z: u32)
    requires
        old(eng).wf(),
    ensures
        final(eng).wf(),
        final(eng).model() == (EngineModel {
            entry_points: eps_set_local_size(old(eng).model().entry_points, id, x, y, z),
            ..old(eng).model()
        }),
{
    let n = eng.entry_points.len();
    let mut j: usize = 0;
    while j < n
        invariant
            old(eng).wf(),
            eng == old(eng),
            n == eng.entry_points@.len(),
            j <= n,
            forall|i: int| 0 <= i < j ==> (#[trigger] eng.entry_points@[i].id) != id,
        decreases n - j,
    {
        if eng.entry_points[j].id == id {
            let ghost ms_old = eng.entry_points@.map_values(|r: EntryPointRec| r.model());
            proof {
                assert forall|i: int| 0 <= i < j as int implies (#[trigger] ms_old[i].id) != id by {
                    assert(ms_old[i] == eng.entry_points@[i].model());
                }
                assert(ms_old[j as int] == eng.entry_points@[j as int].model());
                lemma_eps_sls_at(ms_old, id, x, y, z, j as int);
            }
            let name = vstd::slice::slice_to_vec(eng.entry_points[j].name.as_slice());
            let old_rec = &eng.entry_points[j];
            let rec = EntryPointRec {
                id: old_rec.id,
                name,
                execution_model: old_rec.execution_model,
                wg_x: x,
                wg_y: y,
                wg_z: z,
            };
            eng.entry_points.set(j, rec);
            proof {
                let ms_new = eng.entry_points@.map_values(|r: EntryPointRec| r.model());
                assert(ms_new =~= ms_old.update(
                    j as int,
                    EpModel { wg_x: x, wg_y: y, wg_z: z, ..ms_old[j as int] },
                ));
                assert forall|i: int|
                    0 <= i < ms_new.len() implies name_ok(#[trigger] ms_new[i].name) by {
                    assert(name_ok(old(eng).model().entry_points[i].name));
                    if i != j {
                        assert(ms_new[i] == ms_old[i]);
                    }
                }
            }
            return ;
        }
        j = j + 1;
    }
    proof {
        let ms = eng.entry_points@.map_values(|r: EntryPointRec| r.model());
        assert forall|i: int| 0 <= i < ms.len() implies (#[trigger] ms[i].id) != id by {
            assert(ms[i] == eng.entry_points@[i].model());
        }
        lemma_eps_sls_none(ms, id, x, y, z);
    }
}

/// Finds the type record of `id`, handing back its index.
pub(crate) fn find_type(eng: &Engine, id: u32) -> (r: Option<usize>)
    ensures
        match r {
            Some(j) => j < eng.types@.len() && tbl_lookup(eng.model().types, (id, 0, 0)) == Some(
                eng.model().types[j as int],
            ) && eng.model().types[j as int].id == id,
            None => tbl_lookup(eng.model().types, (id, 0, 0)) is None,
        },
{
    let ghost ms = eng.types@.map_values(|r: TypeRec| r.model());
    let n = eng.types.len();
    let mut j: usize = 0;
    while j < n
        invariant
            ms == eng.types@.map_values(|r: TypeRec| r.model()),
            n == eng.types@.len(),
            j <= n,
            forall|i: int| 0 <= i < j ==> (#[trigger] eng.types@[i].id) != id,
        decreases n - j,
    {
        if eng.types[j].id == id {
            proof {
                assert forall|i: int| 0 <= i < j as int implies (#[trigger] ms[i].key()) != (
                id, 0u32, 0u32) by {
                    assert(ms[i] == eng.types@[i].model());
                }
                assert(ms[j as int] == eng.types@[j as int].model());
                assert(ms[j as int].key() == (id, 0u32, 0u32));
                lemma_tbl_first_match(ms, j as int);
            }
            return Some(j);
        }
        j = j + 1;
    }
    proof {
        assert forall|i: int| 0 <= i < ms.len() implies (#[trigger] ms[i].key()) != (
        id, 0u32, 0u32) by {
            assert(ms[i] == eng.types@[i].model());
        }
        lemma_tbl_no_match(ms, (id, 0u32, 0u32));
    }
    None
}

/// Finds the constant record of `id`, handing back its index.
pub(crate) fn find_constant(eng: &Engine, id: u32) -> (r: Option<usize>)
    ensures
        match r {
            Some(j) => j < eng.constants@.len() && tbl_lookup(eng.model().constants, (id, 0, 0))
                == Some(eng.constants@[j as int]),
            None => tbl_lookup(eng.model().constants, (id, 0, 0)) is None,
        },
{
    let n = eng.constants.len();
    let mut j: usize = 0;
    while j < n
        invariant
            n == eng.constants@.len(),
            j <= n,
            forall|i: int| 0 <= i < j ==> (#[trigger] eng.constants@[i].id) != id,
        decreases n - j,
    {
        if eng.constants[j].id == id {
            proof {
                assert forall|i: int|
                    0 <= i < j as int implies (#[trigger] eng.constants@[i].key()) != (
                id, 0u32, 0u32) by {}
                assert(eng.constants@[j as int].key() == (id, 0u32, 0u32));
                lemma_tbl_first_match(eng.constants@, j as int);
            }
            return Some(j);
        }
        j = j + 1;
    }
    proof {
        assert forall|i: int|
            0 <= i < eng.constants@.len() implies (#[trigger] eng.constants@[i].key()) != (
        id, 0u32, 0u32) by {}
        lemma_tbl_no_match(eng.constants@, (id, 0u32, 0u32));
    }
    None
}

} // verus!

verus! {

/// Copies the words `words[s .. e]`.
pub(crate) fn copy_words(words: &Vec<u32>, s: usize, e: usize) -> (r: Vec<u32>)
    requires
        s <= e <= words@.len(),
    ensures
        r@ == words@.subrange(s as int, e as int),
{
    let mut out: Vec<u32> = Vec::new();
    let mut k: usize = s;
    while k < e
        invariant
            s <= k <= e <= words@.len(),
            out@ == words@.subrange(s as int, k as int),
        decreases e - k,
    {
        out.push(words[k]);
        proof {
            assert(out@ =~= words@.subrange(s as int, k as int + 1));
        }
        k = k + 1;
    }
    out
}

/// A type record with no members, dimensions or pointee.
pub open spec fn scalar_type_rec(id: u32, base: u32, size: u32) -> TypeModel {
    TypeModel {
        id,
        base,
        member_types: Seq::empty(),
        array: Seq::empty(),
        pointee: 0,
        storage_class: 0,
        image_dim: 0,
        image_sampled: 0,
        size,
    }
}

/// The declared sizes of the member types of a struct, summed; nothing when
/// a member type is not yet declared.
pub open spec fn sum_type_sizes(types: Seq<TypeModel>, members: Seq<u32>) -> Option<int>
    decreases members.len(),
{
    if members.len() == 0 {
        Some(0)
    } else {
        match sum_type_sizes(types, members.drop_last()) {
            None => None,
            Some(acc) => match tbl_lookup(types, (members.last(), 0, 0)) {
                None => None,
                Some(t) => Some(acc + t.size),
            },
        }
    }
}

/// The type record declared by a type instruction, resolved against the
/// types and constants declared so far.  Nothing when the instruction is
/// malformed, refers to a missing type or length, or overflows the 32-bit
/// size arithmetic.
pub open spec fn type_rec_of(words: Seq<u32>, i: int, wc: int, op: u32, m: EngineModel) -> Option<
    TypeModel,
> {
    if op == OP_TYPE_VOID {
        if wc < 2 {
            None
        } else {
            Some(scalar_type_rec(words[i + 1], BASE_VOID, 0))
        }
    } else if op == OP_TYPE_BOOL {
        if wc < 2 {
            None
        } else {
            Some(scalar_type_rec(words[i + 1], BASE_BOOLEAN, 1))
        }
    } else if op == OP_TYPE_INT {
        if wc < 4 {
            None
        } else {
            let w = words[i + 2];
            let signed = words[i + 3] == 1;
            if w == 8 {
                Some(
                    scalar_type_rec(
                        words[i + 1],
                        if signed {
                            BASE_SBYTE
                        } else {
                            BASE_UBYTE
                        },
                        1,
                    ),
                )
            } else if w == 16 {
                Some(
                    scalar_type_rec(
                        words[i + 1],
                        if signed {
                            BASE_SHORT
                        } else {
                            BASE_USHORT
                        },
                        2,
                    ),
                )
            } else if w == 32 {
                Some(
                    scalar_type_rec(
                        words[i + 1],
                        if signed {
                            BASE_INT
                        } else {
                            BASE_UINT
                        },
                        4,
                    ),
                )
            } else if w == 64 {
                Some(
                    scalar_type_rec(
                        words[i + 1],
                        if signed {
                            BASE_INT64
                        } else {
                            BASE_UINT64
                        },
                        8,
                    ),
                )
            } else {
                None
            }
        }
    } else if op == OP_TYPE_FLOAT {
        if wc < 3 {
            None
        } else {
            let w = words[i + 2];
            if w == 16 {
                Some(scalar_type_rec(words[i + 1], BASE_HALF, 2))
            } else if w == 32 {
                Some(scalar_type_rec(words[i + 1], BASE_FLOAT, 4))
            } else if w == 64 {
                Some(scalar_type_rec(words[i + 1], BASE_DOUBLE, 8))
            } else {
                None
            }
        }
    } else if op == OP_TYPE_VECTOR || op == OP_TYPE_MATRIX {
        if wc < 4 {
            None
        } else {
            match tbl_lookup(m.types, (words[i + 2], 0, 0)) {
                None => None,
                Some(t) => {
                    let count = words[i + 3];
                    if t.size * count > u32::MAX {
                        None
                    } else {
                        Some(
                            TypeModel {
                                id: words[i + 1],
                                base: t.base,
                                member_types: t.member_types,
                                array: t.array,
                                pointee: 0,
                                storage_class: 0,
                                image_dim: t.image_dim,
                                image_sampled: t.image_sampled,
                                size: (t.size * count) as u32,
                            },
                        )
                    }
                },
            }
        }
    } else if op == OP_TYPE_IMAGE {
        if wc < 9 {
            None
        } else {
            Some(
                TypeModel {
                    id: words[i + 1],
                    base: BASE_IMAGE,
                    member_types: Seq::empty(),
                    array: Seq::empty(),
                    pointee: 0,
                    storage_class: 0,
                    image_dim: words[i + 3],
                    image_sampled: words[i + 7],
                    size: 0,
                },
            )
        }
    } else if op == OP_TYPE_SAMPLER {
        if wc < 2 {
            None
        } else {
            Some(scalar_type_rec(words[i + 1], BASE_SAMPLER, 0))
        }
    } else if op == OP_TYPE_SAMPLED_IMAGE {
        if wc < 3 {
            None
        } else {
            Some(scalar_type_rec(words[i + 1], BASE_SAMPLED_IMAGE, 0))
        }
    } else if op == OP_TYPE_ARRAY {
        if wc < 4 {
            None
        } else {
            match tbl_lookup(m.types, (words[i + 2], 0, 0)) {
                None => None,
                Some(t) => match tbl_lookup(m.constants, (words[i + 3], 0, 0)) {
                    None => None,
                    Some(c) => {
                        if c.value > u32::MAX {
                            None
                        } else if t.size * c.value > u32::MAX {
                            None
                        } else {
                            Some(
                                TypeModel {
                                    id: words[i + 1],
                                    base: t.base,
                                    member_types: t.member_types,
                                    array: t.array.push(c.value as u32),
                                    pointee: 0,
                                    storage_class: 0,
                                    image_dim: t.image_dim,
                                    image_sampled: t.image_sampled,
                                    size: (t.size * c.value) as u32,
                                },
                            )
                        }
                    },
                },
            }
        }
    } else if op == OP_TYPE_RUNTIME_ARRAY {
        if wc < 3 {
            None
        } else {
            match tbl_lookup(m.types, (words[i + 2], 0, 0)) {
                None => None,
                Some(t) => Some(
                    TypeModel {
                        id: words[i + 1],
                        base: t.base,
                        member_types: t.member_types,
                        array: t.array.push(0),
                        pointee: 0,
                        storage_class: 0,
                        image_dim: t.image_dim,
                        image_sampled: t.image_sampled,
                        size: 0,
                    },
                ),
            }
        }
    } else if op == OP_TYPE_STRUCT {
        if wc < 2 {
            None
        } else {
            let members = words.subrange(i + 2, i + wc);
            match sum_type_sizes(m.types, members) {
                None => None,
                Some(total) => {
                    if total > u32::MAX {
                        None
                    } else {
                        Some(
                            TypeModel {
                                id: words[i + 1],
                                base: BASE_STRUCT,
                                member_types: members,
                                array: Seq::empty(),
                                pointee: 0,
                                storage_class: 0,
                                image_dim: 0,
                                image_sampled: 0,
                                size: total as u32,
                            },
                        )
                    }
                },
            }
        }
    } else {
        if wc < 4 {
            None
        } else {
            match tbl_lookup(m.types, (words[i + 3], 0, 0)) {
                None => Some(
                    TypeModel {
                        id: words[i + 1],
                        base: BASE_UNKNOWN,
                        member_types: Seq::empty(),
                        array: Seq::empty(),
                        pointee: words[i + 3],
                        storage_class: words[i + 2],
                        image_dim: 0,
                        image_sampled: 0,
                        size: 0,
                    },
                ),
                Some(t) => Some(
                    TypeModel {
                        id: words[i + 1],
                        base: t.base,
                        member_types: t.member_types,
                        array: t.array,
                        pointee: words[i + 3],
                        storage_class: words[i + 2],
                        image_dim: t.image_dim,
                        image_sampled: t.image_sampled,
                        size: t.size,
                    },
                ),
            }
        }
    }
}

/// Whether `op` is one of the type declarations the reader records.
pub open spec fn is_type_op(op: u32) -> bool {
    op == OP_TYPE_VOID || op == OP_TYPE_BOOL || op == OP_TYPE_INT || op == OP_TYPE_FLOAT || op
        == OP_TYPE_VECTOR || op == OP_TYPE_MATRIX || op == OP_TYPE_IMAGE || op == OP_TYPE_SAMPLER
        || op == OP_TYPE_SAMPLED_IMAGE || op == OP_TYPE_ARRAY || op == OP_TYPE_RUNTIME_ARRAY || op
        == OP_TYPE_STRUCT || op == OP_TYPE_POINTER
}

} // verus!

verus! {

/// The product of two values below `2^32` fits in a `u64`.
proof fn lemma_mul_u32_fits(x: u64, y: u64)
    requires
        x <= 0xFFFF_FFFF,
        y <= 0xFFFF_FFFF,
    ensures
        x * y <= 0xFFFF_FFFE_0000_0001,
{
    assert(x * y <= 0xFFFF_FFFE_0000_0001) by (nonlinear_arith)
        requires
            x <= 0xFFFF_FFFF,
            y <= 0xFFFF_FFFF,
    ;
}

/// A member-size sum is at least any of its partial sums.
proof fn lemma_sum_prefix(types: Seq<TypeModel>, members: Seq<u32>, k: int)
    requires
        0 <= k <= members.len(),
        sum_type_sizes(types, members.take(k)) is Some,
    ensures
        (sum_type_sizes(types, members) matches Some(total) ==> total >= sum_type_sizes(
            types,
            members.take(k),
        )->Some_0),
    decreases members.len() - k,
{
    if k == members.len() {
        assert(members.take(k) =~= members);
    } else {
        let shorter = members.drop_last();
        assert(shorter.take(k) =~= members.take(k));
        lemma_sum_prefix(types, shorter, k);
    }
}

/// A member whose type is missing makes the whole sum nothing.
proof fn lemma_sum_missing(types: Seq<TypeModel>, members: Seq<u32>, k: int)
    requires
        0 <= k < members.len(),
        tbl_lookup(types, (members[k], 0, 0)) is None,
    ensures
        sum_type_sizes(types, members) is None,
    decreases members.len(),
{
    if k < members.len() - 1 {
        let shorter = members.drop_last();
        assert(shorter[k] == members[k]);
        lemma_sum_missing(types, shorter, k);
    }
}

/// Builds the type record a type instruction declares; the reply agrees
/// exactly with [`type_rec_of`].
pub(crate) fn build_type_rec(eng: &Engine, words: &Vec<u32>, i: usize, wc: usize, op: u32) -> (r: Option<
    TypeRec,
>)
    requires
        i + wc <= words@.len(),
        1 <= wc,
        is_type_op(op),
    ensures
        match r {
            Some(rec) => type_rec_of(words@, i as int, wc as int, op, eng.model()) == Some(
                rec.model(),
            ),
            None => type_rec_of(words@, i as int, wc as int, op, eng.model()) is None,
        },
{
    let n = words.len();
    proof {
        assert(i + wc <= n);
    }
    if op == OP_TYPE_VOID || op == OP_TYPE_BOOL || op == OP_TYPE_SAMPLER {
        if wc < 2 {
            return None;
        }
        let base: u32 = if op == OP_TYPE_VOID {
            BASE_VOID
        } else if op == OP_TYPE_BOOL {
            BASE_BOOLEAN
        } else {
            BASE_SAMPLER
        };
        let size: u32 = if op == OP_TYPE_BOOL {
            1
        } else {
            0
        };
        let rec = TypeRec {
            id: words[i + 1],
            base,
            member_types: Vec::new(),
            array: Vec::new(),
            pointee: 0,
            storage_class: 0,
            image_dim: 0,
            image_sampled: 0,
            size,
        };
        proof {
            assert(rec.model() =~= scalar_type_rec(rec.id, base, size));
        }
        Some(rec)
    } else if op == OP_TYPE_INT {
        if wc < 4 {
            return None;
        }
        let w = words[i + 2];
        let signed = words[i + 3] == 1;
        let base: u32 = if w == 8 {
            if signed {
                BASE_SBYTE
            } else {
                BASE_UBYTE
            }
        } else if w == 16 {
            if signed {
                BASE_SHORT
            } else {
                BASE_USHORT
            }
        } else if w == 32 {
            if signed {
                BASE_INT
            } else {
                BASE_UINT
            }
        } else if w == 64 {
            if signed {
                BASE_INT64
            } else {
                BASE_UINT64
            }
        } else {
            return None;
        };
        let size: u32 = if w == 8 {
            1
        } else if w == 16 {
            2
        } else if w == 32 {
            4
        } else {
            8
        };
        let rec = TypeRec {
            id: words[i + 1],
            base,
            member_types: Vec::new(),
            array: Vec::new(),
            pointee: 0,
            storage_class: 0,
            image_dim: 0,
            image_sampled: 0,
            size,
        };
        proof {
            assert(rec.model() =~= scalar_type_rec(rec.id, base, size));
        }
        Some(rec)
    } else if op == OP_TYPE_FLOAT {
        if wc < 3 {
            return None;
        }
        let w = words[i + 2];
        let base: u32 = if w == 16 {
            BASE_HALF
        } else if w == 32 {
            BASE_FLOAT
        } else if w == 64 {
            BASE_DOUBLE
        } else {
            return None;
        };
        let size: u32 = if w == 16 {
            2
        } else if w == 32 {
            4
        } else {
            8
        };
        let rec = TypeRec {
            id: words[i + 1],
            base,
            member_types: Vec::new(),
            array: Vec::new(),
            pointee: 0,
            storage_class: 0,
            image_dim: 0,
            image_sampled: 0,
            size,
        };
        proof {
            assert(rec.model() =~= scalar_type_rec(rec.id, base, size));
        }
        Some(rec)
    } else if op == OP_TYPE_VECTOR || op == OP_TYPE_MATRIX {
        if wc < 4 {
            return None;
        }
        match find_type(eng, words[i + 2]) {
            None => None,
            Some(j) => {
                let count = words[i + 3];
                let t_size = eng.types[j].size;
                proof {
                    lemma_mul_u32_fits(t_size as u64, count as u64);
                }
                let prod: u64 = (t_size as u64) * (count as u64);
                if prod > 0xFFFF_FFFF {
                    return None;
                }
                let rec = TypeRec {
                    id: words[i + 1],
                    base: eng.types[j].base,
                    member_types: vstd::slice::slice_to_vec(eng.types[j].member_types.as_slice()),
                    array: vstd::slice::slice_to_vec(eng.types[j].array.as_slice()),
                    pointee: 0,
                    storage_class: 0,
                    image_dim: eng.types[j].image_dim,
                    image_sampled: eng.types[j].image_sampled,
                    size: prod as u32,
                };
                proof {
                    let t = tbl_lookup(eng.model().types, (words@[i + 2], 0, 0))->Some_0;
                    assert(t == eng.types@[j as int].model());
                    assert(rec.model() =~= (TypeModel {
                        id: words@[i as int + 1],
                        base: t.base,
                        member_types: t.member_types,
                        array: t.array,
                        pointee: 0,
                        storage_class: 0,
                        image_dim: t.image_dim,
                        image_sampled: t.image_sampled,
                        size: (t.size * count) as u32,
                    }));
                }
                Some(rec)
            },
        }
    } else if op == OP_TYPE_IMAGE {
        if wc < 9 {
            return None;
        }
        let rec = TypeRec {
            id: words[i + 1],
            base: BASE_IMAGE,
            member_types: Vec::new(),
            array: Vec::new(),
            pointee: 0,
            storage_class: 0,
            image_dim: words[i + 3],
            image_sampled: words[i + 7],
            size: 0,
        };
        proof {
            assert(rec.model() =~= (TypeModel {
                id: words@[i as int + 1],
                base: BASE_IMAGE,
                member_types: Seq::empty(),
                array: Seq::empty(),
                pointee: 0,
                storage_class: 0,
                image_dim: words@[i as int + 3],
                image_sampled: words@[i as int + 7],
                size: 0,
            }));
        }
        Some(rec)
    } else if op == OP_TYPE_SAMPLED_IMAGE {
        if wc < 3 {
            return None;
        }
        let rec = TypeRec {
            id: words[i + 1],
            base: BASE_SAMPLED_IMAGE,
            member_types: Vec::new(),
            array: Vec::new(),
            pointee: 0,
            storage_class: 0,
            image_dim: 0,
            image_sampled: 0,
            size: 0,
        };
        proof {
            assert(rec.model() =~= scalar_type_rec(rec.id, BASE_SAMPLED_IMAGE, 0));
        }
        Some(rec)
    } else if op == OP_TYPE_ARRAY {
        if wc < 4 {
            return None;
        }
        match find_type(eng, words[i + 2]) {
            None => None,
            Some(j) => match find_constant(eng, words[i + 3]) {
                None => None,
                Some(cj) => {
                    let len_value = eng.constants[cj].value;
                    if len_value > 0xFFFF_FFFF {
                        return None;
                    }
                    let t_size = eng.types[j].size;
                    proof {
                        lemma_mul_u32_fits(t_size as u64, len_value);
                    }
                    let prod: u64 = (t_size as u64) * len_value;
                    if prod > 0xFFFF_FFFF {
                        return None;
                    }
                    let mut array = vstd::slice::slice_to_vec(eng.types[j].array.as_slice());
                    array.push(len_value as u32);
                    let rec = TypeRec {
                        id: words[i + 1],
                        base: eng.types[j].base,
                        member_types: vstd::slice::slice_to_vec(
                            eng.types[j].member_types.as_slice(),
                        ),
                        array,
                        pointee: 0,
                        storage_class: 0,
                        image_dim: eng.types[j].image_dim,
                        image_sampled: eng.types[j].image_sampled,
                        size: prod as u32,
                    };
                    proof {
                        let t = tbl_lookup(eng.model().types, (words@[i + 2], 0, 0))->Some_0;
                        let c = tbl_lookup(eng.model().constants, (words@[i + 3], 0, 0))->Some_0;
                        assert(t == eng.types@[j as int].model());
                        assert(rec.model() =~= (TypeModel {
                            id: words@[i as int + 1],
                            base: t.base,
                            member_types: t.member_types,
                            array: t.array.push(c.value as u32),
                            pointee: 0,
                            storage_class: 0,
                            image_dim: t.image_dim,
                            image_sampled: t.image_sampled,
                            size: (t.size * c.value) as u32,
                        }));
                    }
                    Some(rec)
                },
            },
        }
    } else if op == OP_TYPE_RUNTIME_ARRAY {
        if wc < 3 {
            return None;
        }
        match find_type(eng, words[i + 2]) {
            None => None,
            Some(j) => {
                let mut array = vstd::slice::slice_to_vec(eng.types[j].array.as_slice());
                array.push(0);
                let rec = TypeRec {
                    id: words[i + 1],
                    base: eng.types[j].base,
                    member_types: vstd::slice::slice_to_vec(eng.types[j].member_types.as_slice()),
                    array,
                    pointee: 0,
                    storage_class: 0,
                    image_dim: eng.types[j].image_dim,
                    image_sampled: eng.types[j].image_sampled,
                    size: 0,
                };
                proof {
                    let t = tbl_lookup(eng.model().types, (words@[i + 2], 0, 0))->Some_0;
                    assert(t == eng.types@[j as int].model());
                    assert(rec.model() =~= (TypeModel {
                        id: words@[i as int + 1],
                        base: t.base,
                        member_types: t.member_types,
                        array: t.array.push(0),
                        pointee: 0,
                        storage_class: 0,
                        image_dim: t.image_dim,
                        image_sampled: t.image_sampled,
                        size: 0,
                    }));
                }
                Some(rec)
            },
        }
    } else if op == OP_TYPE_STRUCT {
        if wc < 2 {
            return None;
        }
        let members = copy_words(words, i + 2, i + wc);
        let ghost members_spec = words@.subrange(i as int + 2, i as int + wc as int);
        let count = members.len();
        let mut acc: u64 = 0;
        let mut k: usize = 0;
        while k < count
            invariant
                op == OP_TYPE_STRUCT,
                2 <= wc,
                i + wc <= words@.len(),
                members_spec == words@.subrange(i as int + 2, i as int + wc as int),
                members@ == members_spec,
                count == members_spec.len(),
                k <= count,
                acc <= 0xFFFF_FFFF,
                sum_type_sizes(eng.model().types, members_spec.take(k as int)) == Some(
                    acc as int,
                ),
            decreases count - k,
        {
            match find_type(eng, members[k]) {
                None => {
                    proof {
                        lemma_sum_missing(eng.model().types, members_spec, k as int);
                    }
                    return None;
                },
                Some(j) => {
                    let sz = eng.types[j].size;
                    proof {
                        let taken = members_spec.take(k as int + 1);
                        assert(taken.drop_last() =~= members_spec.take(k as int));
                        assert(taken.last() == members_spec[k as int]);
                        assert(eng.types@[j as int].model() == tbl_lookup(
                            eng.model().types,
                            (members_spec[k as int], 0, 0),
                        )->Some_0);
                    }
                    let acc2: u64 = acc + (sz as u64);
                    if acc2 > 0xFFFF_FFFF {
                        proof {
                            lemma_sum_prefix(eng.model().types, members_spec, k as int + 1);
                        }
                        return None;
                    }
                    acc = acc2;
                },
            }
            k = k + 1;
        }
        proof {
            assert(members_spec.take(count as int) =~= members_spec);
        }
        let rec = TypeRec {
            id: words[i + 1],
            base: BASE_STRUCT,
            member_types: members,
            array: Vec::new(),
            pointee: 0,
            storage_class: 0,
            image_dim: 0,
            image_sampled: 0,
            size: acc as u32,
        };
        proof {
            assert(rec.model() =~= (TypeModel {
                id: words@[i as int + 1],
                base: BASE_STRUCT,
                member_types: members_spec,
                array: Seq::empty(),
                pointee: 0,
                storage_class: 0,
                image_dim: 0,
                image_sampled: 0,
                size: (sum_type_sizes(eng.model().types, members_spec)->Some_0) as u32,
            }));
        }
        Some(rec)
    } else {
        if wc < 4 {
            return None;
        }
        match find_type(eng, words[i + 3]) {
            None => {
                let rec = TypeRec {
                    id: words[i + 1],
                    base: BASE_UNKNOWN,
                    member_types: Vec::new(),
                    array: Vec::new(),
                    pointee: words[i + 3],
                    storage_class: words[i + 2],
                    image_dim: 0,
                    image_sampled: 0,
                    size: 0,
                };
                proof {
                    assert(rec.model() =~= (TypeModel {
                        id: words@[i as int + 1],
                        base: BASE_UNKNOWN,
                        member_types: Seq::empty(),
                        array: Seq::empty(),
                        pointee: words@[i as int + 3],
                        storage_class: words@[i as int + 2],
                        image_dim: 0,
                        image_sampled: 0,
                        size: 0,
                    }));
                }
                Some(rec)
            },
            Some(j) => {
                let rec = TypeRec {
                    id: words[i + 1],
                    base: eng.types[j].base,
                    member_types: vstd::slice::slice_to_vec(eng.types[j].member_types.as_slice()),
                    array: vstd::slice::slice_to_vec(eng.types[j].array.as_slice()),
                    pointee: words[i + 3],
                    storage_class: words[i + 2],
                    image_dim: eng.types[j].image_dim,
                    image_sampled: eng.types[j].image_sampled,
                    size: eng.types[j].size,
                };
                proof {
                    let t = tbl_lookup(eng.model().types, (words@[i + 3], 0, 0))->Some_0;
                    assert(t == eng.types@[j as int].model());
                    assert(rec.model() =~= (TypeModel {
                        id: words@[i as int + 1],
                        base: t.base,
                        member_types: t.member_types,
                        array: t.array,
                        pointee: words@[i as int + 3],
                        storage_class: words@[i as int + 2],
                        image_dim: t.image_dim,
                        image_sampled: t.image_sampled,
                        size: t.size,
                    }));
                }
                Some(rec)
            },
        }
    }
}

} // verus!

verus! {

/// The state of a fresh compiler instance, before any instruction is read.
pub open spec fn empty_model(target: TargetKind) -> EngineModel {
    EngineModel {
        target,
        entry_points: Seq::empty(),
        names: Seq::empty(),
        member_names: Seq::empty(),
        decorations: Seq::empty(),
        member_decorations: Seq::empty(),
        types: Seq::empty(),
        variables: Seq::empty(),
        constants: Seq::empty(),
        composites: Seq::empty(),
        glsl_options: glsl_initial_options(),
        hlsl_options: hlsl_initial_options(),
        msl_options: msl_initial_options(),
        hlsl_root_constants: Seq::empty(),
    }
}

/// What one instruction at `words[i .. i + wc]` does to the instance state.
/// Nothing when the instruction is one the reader records but malformed, or
/// when a fixed limit is exceeded; an unrecorded instruction changes nothing.
pub open spec fn apply_inst(words: Seq<u32>, i: int, wc: int, op: u32, m: EngineModel) -> Option<
    EngineModel,
> {
    if op == OP_NAME {
        if wc < 3 {
            None
        } else {
            match lit_string(words, i + 2, i + wc) {
                None => None,
                Some(name) => match name_skip_insert(m.names, NameModel { id: words[i + 1], name }) {
                    None => None,
                    Some(s) => Some(m.with_names(s)),
                },
            }
        }
    } else if op == OP_MEMBER_NAME {
        if wc < 4 {
            None
        } else {
            match lit_string(words, i + 3, i + wc) {
                None => None,
                Some(name) => match member_name_skip_insert(
                    m.member_names,
                    MemberNameModel { id: words[i + 1], member: words[i + 2], name },
                ) {
                    None => None,
                    Some(s) => Some(EngineModel { member_names: s, ..m }),
                },
            }
        }
    } else if op == OP_ENTRY_POINT {
        if wc < 4 {
            None
        } else {
            match lit_string(words, i + 3, i + wc) {
                None => None,
                Some(name) => {
                    let ep = EpModel {
                        id: words[i + 2],
                        name,
                        execution_model: words[i + 1],
                        wg_x: 0,
                        wg_y: 0,
                        wg_z: 0,
                    };
                    match capped_push(m.entry_points, ep, MAX_ENTRY_POINTS as int) {
                        None => None,
                        Some(s) => Some(EngineModel { entry_points: s, ..m }),
                    }
                },
            }
        }
    } else if op == OP_EXECUTION_MODE {
        if wc < 3 {
            None
        } else if words[i + 2] == MODE_LOCAL_SIZE {
            if wc < 6 {
                None
            } else {
                Some(
                    EngineModel {
                        entry_points: eps_set_local_size(
                            m.entry_points,
                            words[i + 1],
                            words[i + 3],
                            words[i + 4],
                            words[i + 5],
                        ),
                        ..m
                    },
                )
            }
        } else {
            Some(m)
        }
    } else if op == OP_DECORATE {
        if wc < 3 {
            None
        } else {
            let rec = DecorationRec {
                id: words[i + 1],
                decoration: words[i + 2],
                argument: if wc >= 4 {
                    words[i + 3]
                } else {
                    0
                },
            };
            match deco_skip_insert(m.decorations, rec) {
                None => None,
                Some(s) => Some(m.with_decorations(s)),
            }
        }
    } else if op == OP_MEMBER_DECORATE {
        if wc < 4 {
            None
        } else {
            let rec = MemberDecorationRec {
                id: words[i + 1],
                member: words[i + 2],
                decoration: words[i + 3],
                argument: if wc >= 5 {
                    words[i + 4]
                } else {
                    0
                },
            };
            match member_deco_skip_insert(m.member_decorations, rec) {
                None => None,
                Some(s) => Some(m.with_member_decorations(s)),
            }
        }
    } else if is_type_op(op) {
        match type_rec_of(words, i, wc, op, m) {
            None => None,
            Some(t) => match capped_push(m.types, t, MAX_TABLE as int) {
                None => None,
                Some(s) => Some(EngineModel { types: s, ..m }),
            },
        }
    } else if op == OP_CONSTANT || op == OP_SPEC_CONSTANT {
        if wc < 4 {
            None
        } else {
            let rec = ConstantRec {
                id: words[i + 2],
                value: words[i + 3] as u64,
                spec_constant: op == OP_SPEC_CONSTANT,
            };
            match constant_skip_insert(m.constants, rec) {
                None => None,
                Some(s) => Some(m.with_constants(s)),
            }
        }
    } else if op == OP_SPEC_CONSTANT_TRUE || op == OP_SPEC_CONSTANT_FALSE {
        if wc < 3 {
            None
        } else {
            let rec = ConstantRec {
                id: words[i + 2],
                value: if op == OP_SPEC_CONSTANT_TRUE {
                    1
                } else {
                    0
                },
                spec_constant: true,
            };
            match constant_skip_insert(m.constants, rec) {
                None => None,
                Some(s) => Some(m.with_constants(s)),
            }
        }
    } else if op == OP_SPEC_CONSTANT_COMPOSITE {
        if wc < 3 {
            None
        } else {
            let comp = CompositeModel {
                id: words[i + 2],
                components: words.subrange(i + 3, i + wc),
            };
            match capped_push(m.composites, comp, MAX_TABLE as int) {
                None => None,
                Some(s) => Some(EngineModel { composites: s, ..m }),
            }
        }
    } else if op == OP_VARIABLE {
        if wc < 4 {
            None
        } else {
            let rec = VariableRec {
                id: words[i + 2],
                type_id: words[i + 1],
                storage_class: words[i + 3],
            };
            match capped_push(m.variables, rec, MAX_VARIABLES as int) {
                None => None,
                Some(s) => Some(EngineModel { variables: s, ..m }),
            }
        }
    } else {
        Some(m)
    }
}

/// Folds the instructions from word `i` to the end over the state `m`.
pub open spec fn parse_insts(words: Seq<u32>, i: int, m: EngineModel) -> Option<EngineModel>
    decreases words.len() - i,
{
    if i == words.len() {
        Some(m)
    } else if i > words.len() {
        None
    } else {
        let first = words[i];
        let wc = (first / 0x10000) as int;
        let op = (first % 0x10000) as u32;
        if wc == 0 || i + wc > words.len() {
            None
        } else {
            match apply_inst(words, i, wc, op, m) {
                None => None,
                Some(m2) => parse_insts(words, i + wc, m2),
            }
        }
    }
}

/// The whole reader: the state of a fresh instance for `target` after
/// reading `words`, or nothing when the module is rejected.
pub open spec fn parse_model(target: TargetKind, words: Seq<u32>) -> Option<EngineModel> {
    if words.len() < 5 || words.len() > MAX_MODULE_WORDS || words[0] != MODULE_MAGIC {
        None
    } else {
        parse_insts(words, 5, empty_model(target))
    }
}

} // verus!

verus! {

/// The GLSL options a fresh instance starts with.
pub(crate) fn initial_glsl_options() -> (r: RawGlslOptions)
    ensures
        r == glsl_initial_options(),
{
    RawGlslOptions {
        version: 450,
        es: false,
        vertex_invert_y: false,
        vertex_transform_clip_space: false,
        vertex_support_nonzero_base_instance: false,
        fragment_default_float_precision: 1,
        fragment_default_int_precision: 3,
        force_temporary: false,
        vulkan_semantics: false,
        separate_shader_objects: false,
        flatten_multidimensional_arrays: false,
        enable_420_pack_extension: true,
        emit_push_constant_as_uniform_buffer: false,
        emit_uniform_buffer_as_plain_uniforms: false,
        emit_line_directives: false,
        enable_storage_image_qualifier_deduction: true,
        force_zero_initialized_variables: false,
    }
}

/// The HLSL options a fresh instance starts with.
pub(crate) fn initial_hlsl_options() -> (r: RawHlslOptions)
    ensures
        r == hlsl_initial_options(),
{
    RawHlslOptions { shader_model: 30, vertex_invert_y: false, vertex_transform_clip_space: false }
}

/// The MSL options a fresh instance starts with.
pub(crate) fn initial_msl_options() -> (r: RawMslOptions)
    ensures
        r == msl_initial_options(),
{
    RawMslOptions {
        vertex_invert_y: false,
        vertex_transform_clip_space: false,
        platform: 1,
        version: 10200,
        enable_point_size_builtin: true,
        disable_rasterization: false,
    }
}

/// Applies one instruction to the instance; the reply agrees exactly with
/// [`apply_inst`].
pub(crate) fn apply_inst_exec(eng: &mut Engine, words: &Vec<u32>, i: usize, wc: usize, op: u32) -> (ok:
    bool)
    requires
        old(eng).wf(),
        1 <= wc,
        i + wc <= words@.len(),
    ensures
        final(eng).wf(),
        ok ==> apply_inst(words@, i as int, wc as int, op, old(eng).model()) == Some(
            final(eng).model(),
        ),
        !ok ==> (apply_inst(words@, i as int, wc as int, op, old(eng).model()) is None),
{
    let n = words.len();
    if op == OP_NAME {
        if wc < 3 {
            return false;
        }
        let id = words[i + 1];
        match read_lit_string(words, i + 2, i + wc) {
            None => false,
            Some(name) => add_name(eng, id, name),
        }
    } else if op == OP_MEMBER_NAME {
        if wc < 4 {
            return false;
        }
        let id = words[i + 1];
        let member = words[i + 2];
        match read_lit_string(words, i + 3, i + wc) {
            None => false,
            Some(name) => add_member_name(eng, id, member, name),
        }
    } else if op == OP_ENTRY_POINT {
        if wc < 4 {
            return false;
        }
        let execution_model = words[i + 1];
        let id = words[i + 2];
        match read_lit_string(words, i + 3, i + wc) {
            None => false,
            Some(name) => {
                let rec = EntryPointRec {
                    id,
                    name,
                    execution_model,
                    wg_x: 0,
                    wg_y: 0,
                    wg_z: 0,
                };
                proof {
                    assert(rec.model() =~= (EpModel {
                        id: words@[i as int + 2],
                        name: lit_string(words@, i as int + 3, i as int + wc as int)->Some_0,
                        execution_model: words@[i as int + 1],
                        wg_x: 0,
                        wg_y: 0,
                        wg_z: 0,
                    }));
                }
                add_entry_point(eng, rec)
            },
        }
    } else if op == OP_EXECUTION_MODE {
        if wc < 3 {
            return false;
        }
        if words[i + 2] == MODE_LOCAL_SIZE {
            if wc < 6 {
                return false;
            }
            set_local_size(eng, words[i + 1], words[i + 3], words[i + 4], words[i + 5]);
            true
        } else {
            true
        }
    } else if op == OP_DECORATE {
        if wc < 3 {
            return false;
        }
        let argument: u32 = if wc >= 4 {
            words[i + 3]
        } else {
            0
        };
        let rec = DecorationRec { id: words[i + 1], decoration: words[i + 2], argument };
        add_decoration(eng, rec)
    } else if op == OP_MEMBER_DECORATE {
        if wc < 4 {
            return false;
        }
        let argument: u32 = if wc >= 5 {
            words[i + 4]
        } else {
            0
        };
        let rec = MemberDecorationRec {
            id: words[i + 1],
            member: words[i + 2],
            decoration: words[i + 3],
            argument,
        };
        add_member_decoration(eng, rec)
    } else if op == OP_TYPE_VOID || op == OP_TYPE_BOOL || op == OP_TYPE_INT || op == OP_TYPE_FLOAT
        || op == OP_TYPE_VECTOR || op == OP_TYPE_MATRIX || op == OP_TYPE_IMAGE || op
        == OP_TYPE_SAMPLER || op == OP_TYPE_SAMPLED_IMAGE || op == OP_TYPE_ARRAY || op
        == OP_TYPE_RUNTIME_ARRAY || op == OP_TYPE_STRUCT || op == OP_TYPE_POINTER {
        match build_type_rec(eng, words, i, wc, op) {
            None => false,
            Some(rec) => add_type(eng, rec),
        }
    } else if op == OP_CONSTANT || op == OP_SPEC_CONSTANT {
        if wc < 4 {
            return false;
        }
        let rec = ConstantRec {
            id: words[i + 2],
            value: words[i + 3] as u64,
            spec_constant: op == OP_SPEC_CONSTANT,
        };
        add_constant(eng, rec)
    } else if op == OP_SPEC_CONSTANT_TRUE || op == OP_SPEC_CONSTANT_FALSE {
        if wc < 3 {
            return false;
        }
        let value: u64 = if op == OP_SPEC_CONSTANT_TRUE {
            1
        } else {
            0
        };
        let rec = ConstantRec { id: words[i + 2], value, spec_constant: true };
        add_constant(eng, rec)
    } else if op == OP_SPEC_CONSTANT_COMPOSITE {
        if wc < 3 {
            return false;
        }
        let id = words[i + 2];
        let components = copy_words(words, i + 3, i + wc);
        let rec = CompositeRec { id, components };
        proof {
            assert(rec.model() =~= (CompositeModel {
                id: words@[i as int + 2],
                components: words@.subrange(i as int + 3, i as int + wc as int),
            }));
        }
        add_composite(eng, rec)
    } else if op == OP_VARIABLE {
        if wc < 4 {
            return false;
        }
        let rec = VariableRec {
            id: words[i + 2],
            type_id: words[i + 1],
            storage_class: words[i + 3],
        };
        add_variable(eng, rec)
    } else {
        true
    }
}

/// Reads a whole module for `target`.  An engine comes back exactly when
/// [`parse_model`] accepts the words, and its state is the accepted model.
pub(crate) fn parse_module(target: TargetKind, words: &Vec<u32>) -> (r: Option<Engine>)
    ensures
        match r {
            Some(eng) => parse_model(target, words@) == Some(eng.model()) && eng.wf()
                && eng.target == target,
            None => parse_model(target, words@) is None,
        },
{
    let len = words.len();
    if len < 5 || len > MAX_MODULE_WORDS as usize {
        return None;
    }
    if words[0] != MODULE_MAGIC {
        return None;
    }
    let mut eng = Engine {
        target,
        entry_points: Vec::new(),
        names: Vec::new(),
        member_names: Vec::new(),
        decorations: Vec::new(),
        member_decorations: Vec::new(),
        types: Vec::new(),
        variables: Vec::new(),
        constants: Vec::new(),
        composites: Vec::new(),
        glsl_options: initial_glsl_options(),
        hlsl_options: initial_hlsl_options(),
        msl_options: initial_msl_options(),
        hlsl_root_constants: Vec::new(),
    };
    proof {
        assert(eng.model() =~= empty_model(target));
        assert(eng.wf());
    }
    let mut i: usize = 5;
    while i < len
        invariant
            eng.wf(),
            eng.target == target,
            len == words@.len(),
            5 <= i <= len,
            len <= MAX_MODULE_WORDS,
            parse_model(target, words@) == parse_insts(words@, i as int, eng.model()),
        decreases len - i,
    {
        let first = words[i];
        let wcw = first / 0x10000;
        let op = first % 0x10000;
        let wc = wcw as usize;
        if wc == 0 || wc > len - i {
            proof {
                assert(parse_insts(words@, i as int, eng.model()) is None);
            }
            return None;
        }
        let ghost m_before = eng.model();
        let ok = apply_inst_exec(&mut eng, words, i, wc, op);
        if !ok {
            proof {
                assert(parse_insts(words@, i as int, m_before) is None);
            }
            return None;
        }
        proof {
            assert(parse_insts(words@, i as int, m_before) == parse_insts(
                words@,
                i as int + wc as int,
                eng.model(),
            ));
        }
        i = i + wc;
    }
    proof {
        assert(parse_insts(words@, i as int, eng.model()) == Some(eng.model()));
    }
    Some(eng)
}

} // verus!

verus! {

/// Two instance states that agree on everything the reader writes: the
/// reflection tables and the options — everything but the target tag.
pub open spec fn tables_eq(a: EngineModel, b: EngineModel) -> bool {
    &&& a.entry_points == b.entry_points
    &&& a.names == b.names
    &&& a.member_names == b.member_names
    &&& a.decorations == b.decorations
    &&& a.member_decorations == b.member_decorations
    &&& a.types == b.types
    &&& a.variables == b.variables
    &&& a.constants == b.constants
    &&& a.composites == b.composites
    &&& a.glsl_options == b.glsl_options
    &&& a.hlsl_options == b.hlsl_options
    &&& a.msl_options == b.msl_options
    &&& a.hlsl_root_constants == b.hlsl_root_constants
}

/// One instruction acts the same on two states that agree on the tables:
/// it accepts or rejects together, and keeps the states in agreement.
proof fn lemma_apply_inst_target_indep(
    words: Seq<u32>,
    i: int,
    wc: int,
    op: u32,
    m1: EngineModel,
    m2: EngineModel,
)
    requires
        tables_eq(m1, m2),
    ensures
        (apply_inst(words, i, wc, op, m1) is Some) == (apply_inst(words, i, wc, op, m2) is Some),
        apply_inst(words, i, wc, op, m1) matches Some(r1) ==> tables_eq(
            r1,
            apply_inst(words, i, wc, op, m2)->Some_0,
        ),
{
    assert(type_rec_of(words, i, wc, op, m1) == type_rec_of(words, i, wc, op, m2));
}

/// The whole instruction fold acts the same on two states that agree on the
/// tables.
pub(crate) proof fn lemma_parse_insts_target_indep(words: Seq<u32>, i: int, m1: EngineModel, m2: EngineModel)
    requires
        tables_eq(m1, m2),
    ensures
        (parse_insts(words, i, m1) is Some) == (parse_insts(words, i, m2) is Some),
    decreases words.len() - i,
{
    if i < words.len() {
        let first = words[i];
        let wc = (first / 0x10000) as int;
        let op = (first % 0x10000) as u32;
        if !(wc == 0 || i + wc > words.len()) {
            lemma_apply_inst_target_indep(words, i, wc, op, m1, m2);
            match apply_inst(words, i, wc, op, m1) {
                Some(r1) => {
                    lemma_parse_insts_target_indep(
                        words,
                        i + wc,
                        r1,
                        apply_inst(words, i, wc, op, m2)->Some_0,
                    );
                },
                None => {},
            }
        }
    }
}

} // verus!
