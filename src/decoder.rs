use vstd::prelude::*;

use crate::entry::{entry_new, with_value, Entry, EntryView};
use crate::error::DecoderError;
use crate::primitives::{decode_int, decode_int_spec, decode_string, decode_string_spec, int_tail};
use crate::table::{evict, inserted, lookup, Table};

verus! {

/// The five representations of RFC 7541, section 6, told apart by the first
/// byte of each.
#[derive(Debug, Clone, Copy, PartialEq, Eq, Structural)]
pub enum Representation {
    /// An entry of the merged table, by index (7-bit prefix).
    Indexed,
    /// A literal that is also added to the dynamic table (6-bit prefix).
    LiteralWithIndexing,
    /// A literal that leaves the dynamic table alone (4-bit prefix).
    LiteralWithoutIndexing,
    /// A literal that intermediaries must never index (4-bit prefix).
    LiteralNeverIndexed,
    /// A new capacity for the dynamic table (5-bit prefix).
    SizeUpdate,
}

/// The representation that a first byte announces; the tests apply in order.
#[verifier::opaque]
pub open spec fn representation_of(byte: u8) -> Result<Representation, DecoderError> {
    if byte & 0x80 == 0x80 {
        Ok(Representation::Indexed)
    } else if byte & 0x40 == 0x40 {
        Ok(Representation::LiteralWithIndexing)
    } else if byte & 0xF0 == 0 {
        Ok(Representation::LiteralWithoutIndexing)
    } else if byte & 0xF0 == 0x10 {
        Ok(Representation::LiteralNeverIndexed)
    } else if byte & 0xE0 == 0x20 {
        Ok(Representation::SizeUpdate)
    } else {
        Err(DecoderError::InvalidRepresentation)
    }
}

/// What the decoder holds between blocks: the capacity that the peer may
/// still announce, and the dynamic table's entries (newest first) and
/// capacity.
pub ghost struct DecoderState {
    pub pending: Option<nat>,
    pub entries: Seq<EntryView>,
    pub max_size: nat,
}

/// An indexed field at `pos`: the entry, and the position after it.
pub open spec fn indexed_spec(entries: Seq<EntryView>, b: Seq<u8>, pos: int) -> Result<
    (EntryView, int),
    DecoderError,
> {
    match decode_int_spec(b, pos, 7) {
        Err(e) => Err(e),
        Ok((k, p)) => match lookup(entries, k as int) {
            Err(e) => Err(e),
            Ok(e) => Ok((e, p)),
        },
    }
}

/// A literal field at `pos` whose name index has a `prefix`-bit prefix: index
/// 0 is followed by a literal name, any other names an entry of the merged
/// table whose kind the result keeps; a literal value follows.
pub open spec fn literal_spec(entries: Seq<EntryView>, b: Seq<u8>, pos: int, prefix: nat) -> Result<
    (EntryView, int),
    DecoderError,
> {
    match decode_int_spec(b, pos, prefix) {
        Err(e) => Err(e),
        Ok((j, p)) => if j == 0 {
            match decode_string_spec(b, p) {
                Err(e) => Err(e),
                Ok((name, p2)) => match decode_string_spec(b, p2) {
                    Err(e) => Err(e),
                    Ok((value, p3)) => match entry_new(name, value) {
                        Err(e) => Err(e),
                        Ok(e) => Ok((e, p3)),
                    },
                },
            }
        } else {
            match lookup(entries, j as int) {
                Err(e) => Err(e),
                Ok(key) => match decode_string_spec(b, p) {
                    Err(e) => Err(e),
                    Ok((value, p2)) => match with_value(key, value) {
                        Err(e) => Err(e),
                        Ok(e) => Ok((e, p2)),
                    },
                },
            }
        },
    }
}

/// A size update at `pos` under the ceiling `max`: the new capacity, and the
/// position after it.
pub open spec fn size_update_spec(b: Seq<u8>, pos: int, max: nat) -> Result<(nat, int), DecoderError> {
    match decode_int_spec(b, pos, 5) {
        Err(e) => Err(e),
        Ok((m, p)) => if m > max {
            Err(DecoderError::InvalidMaxDynamicSize)
        } else {
            Ok((m, p))
        },
    }
}

/// One representation at `pos` of a block, where `can_resize` says that only
/// size updates came before it in the block and `ceiling` is the bound that
/// a size update of this block already took. Yields the new state, the
/// entry it emits if any, the position after it, and the new `can_resize`
/// and `ceiling`.
pub open spec fn step_spec(
    st: DecoderState,
    b: Seq<u8>,
    pos: int,
    can_resize: bool,
    ceiling: Option<nat>,
) -> Result<(DecoderState, Option<EntryView>, int, bool, Option<nat>), DecoderError> {
    match representation_of(b[pos]) {
        Err(e) => Err(e),
        Ok(Representation::Indexed) => match indexed_spec(st.entries, b, pos) {
            Err(e) => Err(e),
            Ok((e, p)) => Ok((st, Some(e), p, false, ceiling)),
        },
        Ok(Representation::LiteralWithIndexing) => match literal_spec(st.entries, b, pos, 6) {
            Err(e) => Err(e),
            Ok((e, p)) => Ok(
                (
                    DecoderState {
                        pending: st.pending,
                        entries: inserted(st.entries, st.max_size, e),
                        max_size: st.max_size,
                    },
                    Some(e),
                    p,
                    false,
                    ceiling,
                ),
            ),
        },
        Ok(Representation::LiteralWithoutIndexing) => match literal_spec(st.entries, b, pos, 4) {
            Err(e) => Err(e),
            Ok((e, p)) => Ok((st, Some(e), p, false, ceiling)),
        },
        Ok(Representation::LiteralNeverIndexed) => match literal_spec(st.entries, b, pos, 4) {
            Err(e) => Err(e),
            Ok((e, p)) => Ok((st, Some(e), p, false, ceiling)),
        },
        Ok(Representation::SizeUpdate) => {
            let max = match ceiling {
                Some(c) => Some(c),
                None => st.pending,
            };
            if !can_resize || max is None {
                Err(DecoderError::InvalidMaxDynamicSize)
            } else {
                match size_update_spec(b, pos, max->Some_0) {
                    Err(e) => Err(e),
                    Ok((m, p)) => Ok(
                        (
                            DecoderState { pending: None, entries: evict(st.entries, m), max_size: m },
                            None,
                            p,
                            true,
                            max,
                        ),
                    ),
                }
            }
        },
    }
}

/// Decoding a block from `pos` on: the final state and the entries emitted,
/// in wire order, or the first error.
pub open spec fn block_spec(
    st: DecoderState,
    b: Seq<u8>,
    pos: int,
    can_resize: bool,
    ceiling: Option<nat>,
) -> Result<(DecoderState, Seq<EntryView>), DecoderError>
    decreases b.len() - pos,
    via block_spec_decreases
{
    if pos < 0 || pos >= b.len() {
        Ok((st, Seq::empty()))
    } else {
        match step_spec(st, b, pos, can_resize, ceiling) {
            Err(e) => Err(e),
            Ok((st2, out, p, cr, ceil)) => match block_spec(st2, b, p, cr, ceil) {
                Err(e) => Err(e),
                Ok((st3, rest)) => Ok(
                    (
                        st3,
                        match out {
                            Some(e) => seq![e] + rest,
                            None => rest,
                        },
                    ),
                ),
            },
        }
    }
}

/// Decoding a whole block from the state `st`.
pub open spec fn decode_spec(st: DecoderState, b: Seq<u8>) -> Result<
    (DecoderState, Seq<EntryView>),
    DecoderError,
> {
    block_spec(st, b, 0, true, None)
}

pub proof fn lemma_tail_advances(b: Seq<u8>, pos: int, acc: nat, k: nat)
    ensures
        int_tail(b, pos, acc, k) matches Ok((_, p)) ==> pos < p <= b.len(),
    decreases b.len() - pos,
{
    if 0 <= pos < b.len() && b[pos] >= 128 && k < 3 {
        let c = b[pos];
        lemma_tail_advances(b, pos + 1, acc + (c % 128) as nat * crate::primitives::pow128(k), k + 1);
    }
}

pub proof fn lemma_int_advances(b: Seq<u8>, pos: int, n: nat)
    ensures
        decode_int_spec(b, pos, n) matches Ok((_, p)) ==> pos < p <= b.len(),
{
    if 1 <= n <= 8 && 0 <= pos < b.len() {
        let v = b[pos] as nat % crate::primitives::prefix_modulus(n);
        lemma_tail_advances(b, pos + 1, v, 0);
    }
}

pub proof fn lemma_string_advances(b: Seq<u8>, pos: int)
    ensures
        decode_string_spec(b, pos) matches Ok((_, p)) ==> pos < p <= b.len(),
{
    lemma_int_advances(b, pos, 7);
}

pub proof fn lemma_literal_advances(entries: Seq<EntryView>, b: Seq<u8>, pos: int, prefix: nat)
    ensures
        literal_spec(entries, b, pos, prefix) matches Ok((_, p)) ==> pos < p <= b.len(),
{
    lemma_int_advances(b, pos, prefix);
    if let Ok((j, p)) = decode_int_spec(b, pos, prefix) {
        lemma_string_advances(b, p);
        if let Ok((_, p2)) = decode_string_spec(b, p) {
            lemma_string_advances(b, p2);
        }
    }
}

/// Every representation consumes at least one byte.
pub proof fn lemma_step_advances(
    st: DecoderState,
    b: Seq<u8>,
    pos: int,
    can_resize: bool,
    ceiling: Option<nat>,
)
    requires
        0 <= pos < b.len(),
    ensures
        step_spec(st, b, pos, can_resize, ceiling) matches Ok((_, _, p, _, _)) ==> pos < p <= b.len(),
{
    lemma_int_advances(b, pos, 7);
    lemma_int_advances(b, pos, 5);
    lemma_literal_advances(st.entries, b, pos, 6);
    lemma_literal_advances(st.entries, b, pos, 4);
}

#[via_fn]
proof fn block_spec_decreases(
    st: DecoderState,
    b: Seq<u8>,
    pos: int,
    can_resize: bool,
    ceiling: Option<nat>,
) {
    if 0 <= pos < b.len() {
        lemma_step_advances(st, b, pos, can_resize, ceiling);
    }
}

/// Decoding is a function of the state and the block: equal states and
/// equal blocks give equal entries, equal final states, or equal errors.
pub proof fn lemma_decode_deterministic(s1: DecoderState, s2: DecoderState, b1: Seq<u8>, b2: Seq<u8>)
    requires
        s1 == s2,
        b1 == b2,
    ensures
        decode_spec(s1, b1) == decode_spec(s2, b2),
{
}

/// A representation other than a size update ends the part of the block
/// where size updates may stand.
pub proof fn lemma_field_ends_resizing(
    st: DecoderState,
    b: Seq<u8>,
    pos: int,
    can_resize: bool,
    ceiling: Option<nat>,
)
    requires
        0 <= pos < b.len(),
        representation_of(b[pos]) != Ok::<Representation, DecoderError>(Representation::SizeUpdate),
    ensures
        step_spec(st, b, pos, can_resize, ceiling) matches Ok((_, _, _, cr, _)) ==> !cr,
{
}

/// Once that part has ended, a size update fails the block.
pub proof fn lemma_late_size_update_rejected(
    st: DecoderState,
    b: Seq<u8>,
    pos: int,
    ceiling: Option<nat>,
)
    requires
        0 <= pos < b.len(),
        representation_of(b[pos]) == Ok::<Representation, DecoderError>(Representation::SizeUpdate),
    ensures
        block_spec(st, b, pos, false, ceiling) == Err::<(DecoderState, Seq<EntryView>), DecoderError>(
            DecoderError::InvalidMaxDynamicSize,
        ),
{
}

/// The entries' values, in order.
pub open spec fn entries_view(v: Seq<Entry>) -> Seq<EntryView> {
    v.map_values(|e: Entry| e@)
}

/// `r` with `done` emitted before what it emits.
pub open spec fn after(done: Seq<EntryView>, r: Result<(DecoderState, Seq<EntryView>), DecoderError>) -> Result<
    (DecoderState, Seq<EntryView>),
    DecoderError,
> {
    match r {
        Ok((s, rest)) => Ok((s, done + rest)),
        Err(e) => Err(e),
    }
}

proof fn lemma_after_step(
    done: Seq<EntryView>,
    out: Option<EntryView>,
    r: Result<(DecoderState, Seq<EntryView>), DecoderError>,
)
    ensures
        after(
            done,
            match r {
                Err(e) => Err(e),
                Ok((s, rest)) => Ok(
                    (
                        s,
                        match out {
                            Some(e) => seq![e] + rest,
                            None => rest,
                        },
                    ),
                ),
            },
        ) == after(
            match out {
                Some(e) => done.push(e),
                None => done,
            },
            r,
        ),
{
    if let Ok((s, rest)) = r {
        if let Some(e) = out {
            assert(done + (seq![e] + rest) =~= done.push(e) + rest);
        }
    }
}

/// Decodes header blocks with HPACK, keeping the dynamic table between them.
pub struct Decoder {
    max_size_update: Option<usize>,
    table: Table,
}

impl View for Decoder {
    type V = DecoderState;

    closed spec fn view(&self) -> DecoderState {
        DecoderState {
            pending: match self.max_size_update {
                Some(v) => Some(v as nat),
                None => None,
            },
            entries: self.table@,
            max_size: self.table.spec_max_size(),
        }
    }
}

impl Decoder {
    /// The dynamic table.
    pub closed spec fn spec_table(&self) -> Table {
        self.table
    }

    /// The dynamic table accounts its size exactly and keeps within its
    /// capacity.
    pub open spec fn wf(&self) -> bool {
        &&& self.spec_table().wf()
        &&& self.spec_table()@ == self@.entries
        &&& self.spec_table().spec_max_size() == self@.max_size
    }

    /// A decoder whose dynamic table is empty, of capacity `size`.
    pub fn new(size: usize) -> (r: Decoder)
        ensures
            r.wf(),
            r@ == (DecoderState { pending: None, entries: Seq::empty(), max_size: size as nat }),
    {
        Decoder { max_size_update: None, table: Table::new(size) }
    }

    /// Records that the peer may now use a table of capacity up to `size`.
    /// Until a size update takes it, the smallest of the bounds queued is
    /// kept: the decoder never accepts a capacity that it has not
    /// acknowledged.
    pub fn queue_size_update(&mut self, size: usize)
        requires
            old(self).wf(),
        ensures
            final(self).wf(),
            final(self)@ == (DecoderState {
                pending: Some(
                    match old(self)@.pending {
                        Some(v) => if v < size {
                            v
                        } else {
                            size as nat
                        },
                        None => size as nat,
                    },
                ),
                ..old(self)@
            }),
    {
        let size = match self.max_size_update {
            Some(v) => if v < size {
                v
            } else {
                size
            },
            None => size,
        };
        self.max_size_update = Some(size);
    }

    /// The dynamic table.
    pub fn table(&self) -> (r: &Table)
        ensures
            *r == self.spec_table(),
    {
        &self.table
    }

    /// Decodes one header block: the entries it encodes, in wire order. The
    /// dynamic table follows the block's insertions and size updates. After
    /// an error the state is of no use but to be dropped.
    pub fn decode(&mut self, src: &[u8]) -> (r: Result<Vec<Entry>, DecoderError>)
        requires
            old(self).wf(),
        ensures
            final(self).wf(),
            match r {
                Ok(out) => decode_spec(old(self)@, src@) == Ok::<
                    (DecoderState, Seq<EntryView>),
                    DecoderError,
                >((final(self)@, entries_view(out@))),
                Err(e) => decode_spec(old(self)@, src@) == Err::<
                    (DecoderState, Seq<EntryView>),
                    DecoderError,
                >(e),
            },
    {
        let mut out: Vec<Entry> = Vec::new();
        let mut pos: usize = 0;
        let mut can_resize = true;
        let mut ceiling: Option<usize> = None;
        while pos < src.len()
            invariant
                self.wf(),
                pos <= src.len(),
                decode_spec(old(self)@, src@) == after(
                    entries_view(out@),
                    block_spec(self@, src@, pos as int, can_resize, opt_nat(ceiling)),
                ),
            decreases src.len() - pos,
        {
            let ghost done = entries_view(out@);
            let (emitted, p, cr, ceil) = match self.step(src, pos, can_resize, ceiling) {
                Ok(x) => x,
                Err(e) => {
                    return Err(e);
                },
            };
            proof {
                lemma_after_step(
                    done,
                    opt_entry(emitted),
                    block_spec(self@, src@, p as int, cr, opt_nat(ceil)),
                );
            }
            match emitted {
                Some(e) => {
                    out.push(e);
                },
                None => {},
            }
            proof {
                assert(entries_view(out@) =~= match opt_entry(emitted) {
                    Some(e) => done.push(e),
                    None => done,
                });
            }
            pos = p;
            can_resize = cr;
            ceiling = ceil;
        }
        proof {
            assert(entries_view(out@) + Seq::<EntryView>::empty() =~= entries_view(out@));
        }
        Ok(out)
    }

    /// Decodes the representation at `pos`, where `can_resize` says that only
    /// size updates came before it in the block and `ceiling` is the bound
    /// that a size update of this block already took; returns the entry it
    /// emits if any, the position after it, and the new `can_resize` and
    /// `ceiling`.
    fn step(&mut self, src: &[u8], pos: usize, can_resize: bool, ceiling: Option<usize>) -> (r:
        Result<(Option<Entry>, usize, bool, Option<usize>), DecoderError>)
        requires
            old(self).wf(),
            pos < src.len(),
        ensures
            final(self).wf(),
            match r {
                Ok((e, p, cr, ceil)) => step_spec(
                    old(self)@,
                    src@,
                    pos as int,
                    can_resize,
                    opt_nat(ceiling),
                ) == Ok::<(DecoderState, Option<EntryView>, int, bool, Option<nat>), DecoderError>(
                    (final(self)@, opt_entry(e), p as int, cr, opt_nat(ceil)),
                ),
                Err(e) => step_spec(old(self)@, src@, pos as int, can_resize, opt_nat(ceiling))
                    == Err::<(DecoderState, Option<EntryView>, int, bool, Option<nat>), DecoderError>(
                    e,
                ),
            },
            r is Ok ==> pos < r->Ok_0.1 <= src.len(),
    {
        let rep = match Representation::load(src[pos]) {
            Ok(rep) => rep,
            Err(e) => {
                return Err(e);
            },
        };
        match rep {
            Representation::Indexed => {
                match self.decode_indexed(src, pos) {
                    Ok((e, p)) => Ok((Some(e), p, false, ceiling)),
                    Err(e) => Err(e),
                }
            },
            Representation::LiteralWithIndexing => {
                let (e, p) = match self.decode_literal(src, pos, true) {
                    Ok(x) => x,
                    Err(e) => {
                        return Err(e);
                    },
                };
                self.table.insert(e.duplicate());
                Ok((Some(e), p, false, ceiling))
            },
            Representation::LiteralWithoutIndexing => {
                match self.decode_literal(src, pos, false) {
                    Ok((e, p)) => Ok((Some(e), p, false, ceiling)),
                    Err(e) => Err(e),
                }
            },
            Representation::LiteralNeverIndexed => {
                match self.decode_literal(src, pos, false) {
                    Ok((e, p)) => Ok((Some(e), p, false, ceiling)),
                    Err(e) => Err(e),
                }
            },
            Representation::SizeUpdate => {
                if !can_resize {
                    return Err(DecoderError::InvalidMaxDynamicSize);
                }
                let max = match ceiling {
                    Some(c) => c,
                    None => match self.max_size_update {
                        Some(c) => c,
                        None => {
                            return Err(DecoderError::InvalidMaxDynamicSize);
                        },
                    },
                };
                let p = match self.process_size_update(src, pos, max) {
                    Ok(p) => p,
                    Err(e) => {
                        return Err(e);
                    },
                };
                self.max_size_update = None;
                Ok((None, p, true, Some(max)))
            },
        }
    }

    /// Applies a size update at `pos` under the ceiling `max`; returns the
    /// position after it.
    fn process_size_update(&mut self, buf: &[u8], pos: usize, max: usize) -> (r: Result<
        usize,
        DecoderError,
    >)
        requires
            old(self).wf(),
        ensures
            final(self).wf(),
            final(self).max_size_update == old(self).max_size_update,
            match size_update_spec(buf@, pos as int, max as nat) {
                Ok((m, p)) => r is Ok && r->Ok_0 as int == p && final(self).table@
                    == evict(old(self).table@, m) && final(self).table.spec_max_size() == m,
                Err(e) => r == Err::<usize, DecoderError>(e),
            },
            r is Ok ==> pos < r->Ok_0 <= buf.len(),
    {
        let (new_size, p) = match decode_int(buf, pos, 5) {
            Ok(x) => x,
            Err(e) => {
                return Err(e);
            },
        };
        if new_size > max {
            return Err(DecoderError::InvalidMaxDynamicSize);
        }
        self.table.set_max_size(new_size);
        Ok(p)
    }

    /// Decodes an indexed field at `pos`.
    fn decode_indexed(&self, buf: &[u8], pos: usize) -> (r: Result<(Entry, usize), DecoderError>)
        ensures
            match r {
                Ok((e, p)) => indexed_spec(self.table@, buf@, pos as int) == Ok::<
                    (EntryView, int),
                    DecoderError,
                >((e@, p as int)),
                Err(e) => indexed_spec(self.table@, buf@, pos as int) == Err::<
                    (EntryView, int),
                    DecoderError,
                >(e),
            },
            r is Ok ==> pos < r->Ok_0.1 <= buf.len(),
    {
        let (index, p) = match decode_int(buf, pos, 7) {
            Ok(x) => x,
            Err(e) => {
                return Err(e);
            },
        };
        match self.table.get(index) {
            Ok(e) => Ok((e, p)),
            Err(e) => Err(e),
        }
    }

    /// Decodes a literal field at `pos`; its name index has a 6-bit prefix
    /// where `index` holds, else a 4-bit one.
    fn decode_literal(&self, buf: &[u8], pos: usize, index: bool) -> (r: Result<
        (Entry, usize),
        DecoderError,
    >)
        ensures
            match r {
                Ok((e, p)) => literal_spec(
                    self.table@,
                    buf@,
                    pos as int,
                    if index {
                        6
                    } else {
                        4
                    },
                ) == Ok::<(EntryView, int), DecoderError>((e@, p as int)),
                Err(e) => literal_spec(
                    self.table@,
                    buf@,
                    pos as int,
                    if index {
                        6
                    } else {
                        4
                    },
                ) == Err::<(EntryView, int), DecoderError>(e),
            },
            r is Ok ==> pos < r->Ok_0.1 <= buf.len(),
    {
        let prefix: u8 = if index {
            6
        } else {
            4
        };
        let (table_idx, p) = match decode_int(buf, pos, prefix) {
            Ok(x) => x,
            Err(e) => {
                return Err(e);
            },
        };
        if table_idx == 0 {
            let (name, p2) = match decode_string(buf, p) {
                Ok(x) => x,
                Err(e) => {
                    return Err(e);
                },
            };
            let (value, p3) = match decode_string(buf, p2) {
                Ok(x) => x,
                Err(e) => {
                    return Err(e);
                },
            };
            match Entry::new(name, value) {
                Ok(e) => Ok((e, p3)),
                Err(e) => Err(e),
            }
        } else {
            let key = match self.table.get(table_idx) {
                Ok(e) => e,
                Err(e) => {
                    return Err(e);
                },
            };
            let (value, p2) = match decode_string(buf, p) {
                Ok(x) => x,
                Err(e) => {
                    return Err(e);
                },
            };
            match key.with_value(value) {
                Ok(e) => Ok((e, p2)),
                Err(e) => Err(e),
            }
        }
    }
}

/// The value of an optional entry.
pub open spec fn opt_entry(o: Option<Entry>) -> Option<EntryView> {
    match o {
        Some(e) => Some(e@),
        None => None,
    }
}

/// An optional bound as a natural number.
pub open spec fn opt_nat(o: Option<usize>) -> Option<nat> {
    match o {
        Some(v) => Some(v as nat),
        None => None,
    }
}

impl Default for Decoder {
    /// A decoder whose dynamic table has the default capacity of 4096 octets.
    fn default() -> (r: Decoder)
        ensures
            r.wf(),
            r@ == (DecoderState { pending: None, entries: Seq::empty(), max_size: 4096 }),
    {
        Decoder::new(4096)
    }
}

impl Representation {
    /// The representation that the first byte of a field announces.
    pub fn load(byte: u8) -> (r: Result<Representation, DecoderError>)
        ensures
            r == representation_of(byte),
    {
        reveal(representation_of);
        if byte & 0x80 == 0x80 {
            Ok(Representation::Indexed)
        } else if byte & 0x40 == 0x40 {
            Ok(Representation::LiteralWithIndexing)
        } else if byte & 0xF0 == 0 {
            Ok(Representation::LiteralWithoutIndexing)
        } else if byte & 0xF0 == 0x10 {
            Ok(Representation::LiteralNeverIndexed)
        } else if byte & 0xE0 == 0x20 {
            Ok(Representation::SizeUpdate)
        } else {
            Err(DecoderError::InvalidRepresentation)
        }
    }
}

} // verus!
