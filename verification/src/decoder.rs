//! Instruction encodings: their storage without repetition, and the caches of the decoder.
use fxhash::{FxHashMap, FxHasher};
use std::hash::BuildHasherDefault;
use vstd::prelude::*;

use crate::system::SegmentSizes;

verus! {

/// The parts of an encoding that many encodings share.
#[derive(Copy, Clone, Debug, PartialEq, Eq, Structural)]
pub enum Component {
    Name,
    EquivalentPrefixes,
    Parts,
    Addresses,
    Commands,
    PartPacking,
    Jump,
}

/// The number of components.
pub const NUM_COMPONENTS: usize = 7;

impl Component {
    pub open spec fn number(self) -> int {
        match self {
            Component::Name => 0,
            Component::EquivalentPrefixes => 1,
            Component::Parts => 2,
            Component::Addresses => 3,
            Component::Commands => 4,
            Component::PartPacking => 5,
            Component::Jump => 6,
        }
    }

    pub fn index(self) -> (r: usize)
        ensures
            r == self.number(),
            r < NUM_COMPONENTS,
    {
        match self {
            Component::Name => 0,
            Component::EquivalentPrefixes => 1,
            Component::Parts => 2,
            Component::Addresses => 3,
            Component::Commands => 4,
            Component::PartPacking => 5,
            Component::Jump => 6,
        }
    }
}

/// An encoding. Its components are kept in serialized form.
#[derive(Debug)]
pub struct Encoding {
    pub bits: Vec<u8>,
    pub is_rep: bool,
    /// One for each component, in the order of their numbers.
    pub components: Vec<Vec<u8>>,
}

/// An encoding whose components are numbers of table entries.
#[derive(Debug)]
pub struct PackedEncoding {
    pub bits: Vec<u8>,
    pub is_rep: bool,
    pub components: Vec<u16>,
}

/// All encodings.
#[derive(Debug)]
pub struct InstrSem {
    pub encodings: Vec<Encoding>,
}

/// All encodings, with every component stored once.
#[derive(Debug)]
pub struct PackedInstrSem {
    encodings: Vec<PackedEncoding>,
    /// One table for each component.
    tables: Vec<Vec<Vec<u8>>>,
}

pub struct EncodingModel {
    pub bits: Seq<u8>,
    pub is_rep: bool,
    pub components: Seq<Seq<u8>>,
}

pub struct PackedEncodingModel {
    pub bits: Seq<u8>,
    pub is_rep: bool,
    pub components: Seq<u16>,
}

pub struct PackedModel {
    pub encodings: Seq<PackedEncodingModel>,
    pub tables: Seq<Seq<Seq<u8>>>,
}

/// The bytes of each element.
pub open spec fn byte_lists(v: Seq<Vec<u8>>) -> Seq<Seq<u8>> {
    Seq::new(v.len(), |i: int| v[i]@)
}

impl Encoding {
    pub open spec fn view(&self) -> EncodingModel {
        EncodingModel {
            bits: self.bits@,
            is_rep: self.is_rep,
            components: byte_lists(self.components@),
        }
    }

    /// An encoding has all components.
    pub open spec fn wf(&self) -> bool {
        self.components.len() == NUM_COMPONENTS
    }
}

impl PackedEncoding {
    pub open spec fn view(&self) -> PackedEncodingModel {
        PackedEncodingModel {
            bits: self.bits@,
            is_rep: self.is_rep,
            components: self.components@,
        }
    }
}

impl InstrSem {
    pub open spec fn view(&self) -> Seq<EncodingModel> {
        Seq::new(self.encodings.len() as nat, |i: int| self.encodings[i]@)
    }

    pub open spec fn wf(&self) -> bool {
        forall|i: int| 0 <= i < self.encodings.len() ==> (#[trigger] self.encodings[i]).wf()
    }
}

impl PackedInstrSem {
    pub closed spec fn view(&self) -> PackedModel {
        PackedModel {
            encodings: Seq::new(self.encodings.len() as nat, |i: int| self.encodings[i]@),
            tables: Seq::new(self.tables.len() as nat, |c: int| byte_lists(self.tables[c]@)),
        }
    }

    /// Every component is in its table.
    pub open spec fn wf(&self) -> bool {
        packed_wf(self@)
    }
}

pub open spec fn packed_wf(p: PackedModel) -> bool {
    &&& p.tables.len() == NUM_COMPONENTS
    &&& forall|i: int|
        0 <= i < p.encodings.len() ==> (#[trigger] p.encodings[i]).components.len()
            == NUM_COMPONENTS
    &&& forall|i: int, c: int|
        0 <= i < p.encodings.len() && 0 <= c < NUM_COMPONENTS
            ==> #[trigger] p.encodings[i].components[c] < p.tables[c].len()
}

/// The first place of a value in a table, from place `k` on. Where it is not there, the place
/// behind the end.
pub open spec fn place_from(table: Seq<Seq<u8>>, v: Seq<u8>, k: int) -> int
    decreases table.len() - k,
{
    if k >= table.len() {
        table.len() as int
    } else if table[k] == v {
        k
    } else {
        place_from(table, v, k + 1)
    }
}

/// A table that holds a value. A value that is new stands at its end.
pub open spec fn interned(table: Seq<Seq<u8>>, v: Seq<u8>) -> Seq<Seq<u8>> {
    if place_from(table, v, 0) < table.len() {
        table
    } else {
        table.push(v)
    }
}

/// The table of a component after the first `n` encodings.
pub open spec fn table_of(encodings: Seq<EncodingModel>, c: int, n: int) -> Seq<Seq<u8>>
    decreases n,
{
    if n <= 0 {
        Seq::empty()
    } else {
        interned(table_of(encodings, c, n - 1), encodings[n - 1].components[c])
    }
}

/// The number of a component of encoding `i` in its table.
pub open spec fn number_of(encodings: Seq<EncodingModel>, c: int, i: int) -> int {
    place_from(table_of(encodings, c, i), encodings[i].components[c], 0)
}

/// Whether all numbers of the first `n` encodings fit.
pub open spec fn numbers_fit(encodings: Seq<EncodingModel>, n: int) -> bool {
    forall|i: int, c: int|
        0 <= i < n && 0 <= c < NUM_COMPONENTS ==> #[trigger] number_of(encodings, c, i) <= u16::MAX
}

pub open spec fn packed_encoding(encodings: Seq<EncodingModel>, i: int) -> PackedEncodingModel {
    PackedEncodingModel {
        bits: encodings[i].bits,
        is_rep: encodings[i].is_rep,
        components: Seq::new(
            NUM_COMPONENTS as nat,
            |c: int| number_of(encodings, c, i) as u16,
        ),
    }
}

/// The first `n` encodings with every component stored once, in the order in which they occur.
pub open spec fn packed(encodings: Seq<EncodingModel>, n: int) -> PackedModel {
    PackedModel {
        encodings: Seq::new(n as nat, |i: int| packed_encoding(encodings, i)),
        tables: Seq::new(NUM_COMPONENTS as nat, |c: int| table_of(encodings, c, n)),
    }
}

/// An encoding with its components taken from the tables.
pub open spec fn unpacked_encoding(p: PackedModel, i: int) -> EncodingModel {
    EncodingModel {
        bits: p.encodings[i].bits,
        is_rep: p.encodings[i].is_rep,
        components: Seq::new(
            NUM_COMPONENTS as nat,
            |c: int| p.tables[c][p.encodings[i].components[c] as int],
        ),
    }
}

pub open spec fn unpacked(p: PackedModel) -> Seq<EncodingModel> {
    Seq::new(p.encodings.len(), |i: int| unpacked_encoding(p, i))
}

proof fn lemma_place(table: Seq<Seq<u8>>, v: Seq<u8>, k: int)
    requires
        0 <= k <= table.len(),
    ensures
        k <= place_from(table, v, k) <= table.len(),
        place_from(table, v, k) < table.len() ==> table[place_from(table, v, k)] == v,
    decreases table.len() - k,
{
    if k < table.len() && table[k] != v {
        lemma_place(table, v, k + 1);
    }
}

proof fn lemma_tables_grow(encodings: Seq<EncodingModel>, c: int, a: int, b: int)
    requires
        0 <= a <= b,
    ensures
        table_of(encodings, c, a).len() <= table_of(encodings, c, b).len(),
        table_of(encodings, c, b).len() <= b,
        forall|k: int|
            0 <= k < table_of(encodings, c, a).len() ==> table_of(encodings, c, b)[k]
                == #[trigger] table_of(encodings, c, a)[k],
    decreases b,
{
    if a < b {
        lemma_tables_grow(encodings, c, a, b - 1);
    } else if b > 0 {
        lemma_tables_grow(encodings, c, a - 1, b - 1);
    }
}

/// The number of a component leads to it in the table.
proof fn lemma_number_leads(encodings: Seq<EncodingModel>, c: int, i: int, n: int)
    requires
        0 <= i < n,
    ensures
        0 <= number_of(encodings, c, i) < table_of(encodings, c, n).len(),
        table_of(encodings, c, n)[number_of(encodings, c, i)] == encodings[i].components[c],
{
    lemma_place(table_of(encodings, c, i), encodings[i].components[c], 0);
    lemma_tables_grow(encodings, c, i + 1, n);
    let k = number_of(encodings, c, i);
    assert(table_of(encodings, c, i + 1)[k] == encodings[i].components[c]);
}

/// Unpacking gives back what was packed.
pub proof fn unpacking_undoes_packing(encodings: Seq<EncodingModel>)
    requires
        numbers_fit(encodings, encodings.len() as int),
        forall|i: int|
            0 <= i < encodings.len() ==> (#[trigger] encodings[i]).components.len()
                == NUM_COMPONENTS,
    ensures
        packed_wf(packed(encodings, encodings.len() as int)),
        unpacked(packed(encodings, encodings.len() as int)) == encodings,
{
    let n = encodings.len() as int;
    let p = packed(encodings, n);
    assert forall|i: int, c: int|
        0 <= i < p.encodings.len() && 0 <= c < NUM_COMPONENTS implies #[trigger] p.encodings[i].components[c]
        < p.tables[c].len() by {
        lemma_number_leads(encodings, c, i, n);
        assert(number_of(encodings, c, i) <= u16::MAX);
    }
    assert forall|i: int| 0 <= i < n implies #[trigger] unpacked(p)[i] == encodings[i] by {
        assert forall|c: int| 0 <= c < NUM_COMPONENTS implies unpacked(p)[i].components[c]
            == encodings[i].components[c] by {
            lemma_number_leads(encodings, c, i, n);
            assert(number_of(encodings, c, i) <= u16::MAX);
        }
        assert(unpacked(p)[i].components =~= encodings[i].components);
    }
    assert(unpacked(p) =~= encodings);
}

fn same_bytes(a: &Vec<u8>, b: &Vec<u8>) -> (r: bool)
    ensures
        r == (a@ == b@),
{
    if a.len() != b.len() {
        return false;
    }
    let mut i: usize = 0;
    while i < a.len()
        invariant
            i <= a.len(),
            a.len() == b.len(),
            forall|k: int| 0 <= k < i ==> a@[k] == b@[k],
        decreases a.len() - i,
    {
        if a[i] != b[i] {
            assert(a@[i as int] != b@[i as int]);
            return false;
        }
        i += 1;
    }
    assert(a@ =~= b@);
    true
}

fn copied(list: &Vec<u8>) -> (r: Vec<u8>)
    ensures
        r@ == list@,
{
    let mut r: Vec<u8> = Vec::new();
    let mut i: usize = 0;
    while i < list.len()
        invariant
            i <= list.len(),
            r@ == list@.take(i as int),
        decreases list.len() - i,
    {
        r.push(list[i]);
        assert(r@ =~= list@.take(i + 1));
        i += 1;
    }
    assert(list@.take(i as int) =~= list@);
    r
}

/// Finds a value in a table, or adds it.
fn intern(table: &mut Vec<Vec<u8>>, v: &Vec<u8>) -> (r: usize)
    ensures
        r == place_from(byte_lists(old(table)@), v@, 0),
        byte_lists(final(table)@) == interned(byte_lists(old(table)@), v@),
{
    let ghost before = byte_lists(table@);
    let mut k: usize = 0;
    while k < table.len()
        invariant
            byte_lists(table@) == before,
            table@ == old(table)@,
            before == byte_lists(old(table)@),
            k <= table.len(),
            place_from(before, v@, 0) == place_from(before, v@, k as int),
        decreases table.len() - k,
    {
        assert(before[k as int] == table[k as int]@);
        if same_bytes(&table[k], v) {
            return k;
        }
        k += 1;
    }
    table.push(copied(v));
    assert(byte_lists(table@) =~= before.push(v@));
    k
}

impl InstrSem {
    /// Stores every component once. There are no more numbers than 16 bits can hold.
    pub fn pack(self) -> (r: Option<PackedInstrSem>)
        requires
            self.wf(),
        ensures
            r is Some <==> numbers_fit(self@, self@.len() as int),
            r matches Some(p) ==> p@ == packed(self@, self@.len() as int) && p.wf(),
    {
        let ghost all = self@;
        let mut tables: Vec<Vec<Vec<u8>>> = Vec::new();
        let mut c: usize = 0;
        while c < NUM_COMPONENTS
            invariant
                c <= NUM_COMPONENTS,
                tables.len() == c,
                forall|k: int| 0 <= k < c ==> byte_lists((#[trigger] tables[k])@) == table_of(all, k, 0),
            decreases NUM_COMPONENTS - c,
        {
            tables.push(Vec::new());
            assert(byte_lists(tables[c as int]@) =~= Seq::empty());
            c += 1;
        }
        let mut encodings: Vec<PackedEncoding> = Vec::new();
        let mut i: usize = 0;
        while i < self.encodings.len()
            invariant
                self.wf(),
                all == self@,
                i <= self.encodings.len(),
                tables.len() == NUM_COMPONENTS,
                forall|k: int|
                    0 <= k < NUM_COMPONENTS ==> byte_lists((#[trigger] tables[k])@) == table_of(
                        all,
                        k,
                        i as int,
                    ),
                encodings.len() == i,
                forall|k: int| 0 <= k < i ==> (#[trigger] encodings[k])@ == packed_encoding(all, k),
                numbers_fit(all, i as int),
            decreases self.encodings.len() - i,
        {
            let e = &self.encodings[i];
            assert(self.encodings[i as int].wf());
            assert(all[i as int] == self.encodings[i as int]@);
            let mut components: Vec<u16> = Vec::new();
            let mut c: usize = 0;
            while c < NUM_COMPONENTS
                invariant
                    all == self@,
                    i < self.encodings.len(),
                    *e == self.encodings[i as int],
                    all[i as int] == e@,
                    e.wf(),
                    c <= NUM_COMPONENTS,
                    tables.len() == NUM_COMPONENTS,
                    numbers_fit(all, i as int),
                    forall|k: int|
                        0 <= k < c ==> byte_lists((#[trigger] tables[k])@) == table_of(
                            all,
                            k,
                            i + 1,
                        ),
                    forall|k: int|
                        c <= k < NUM_COMPONENTS ==> byte_lists((#[trigger] tables[k])@) == table_of(
                            all,
                            k,
                            i as int,
                        ),
                    components.len() == c,
                    forall|k: int|
                        0 <= k < c ==> #[trigger] number_of(all, k, i as int) <= u16::MAX,
                    forall|k: int|
                        0 <= k < c ==> #[trigger] components[k] == number_of(all, k, i as int) as u16,
                decreases NUM_COMPONENTS - c,
            {
                assert(all[i as int].components[c as int] == e.components[c as int]@);
                let n: usize = intern(&mut tables[c], &e.components[c]);
                assert(n == number_of(all, c as int, i as int));
                if n > 0xffff {
                    assert(i < self@.len());
                    return None;
                }
                components.push(n as u16);
                c += 1;
            }
            encodings.push(PackedEncoding { bits: copied(&e.bits), is_rep: e.is_rep, components });
            assert(encodings[i as int]@.components =~= packed_encoding(all, i as int).components);
            i += 1;
        }
        let r = PackedInstrSem { encodings, tables };
        proof {
            let n = all.len() as int;
            assert(r@.encodings =~= packed(all, n).encodings);
            assert(r@.tables =~= packed(all, n).tables);
            unpacking_undoes_packing(all);
        }
        Some(r)
    }
}

impl PackedInstrSem {
    /// No encodings.
    pub fn empty() -> (r: PackedInstrSem)
        ensures
            r.wf(),
            r@.encodings.len() == 0,
            forall|c: int| 0 <= c < NUM_COMPONENTS ==> (#[trigger] r@.tables[c]).len() == 0,
    {
        let mut tables: Vec<Vec<Vec<u8>>> = Vec::new();
        let mut c: usize = 0;
        while c < NUM_COMPONENTS
            invariant
                c <= NUM_COMPONENTS,
                tables.len() == c,
                forall|k: int| 0 <= k < c ==> (#[trigger] tables[k]).len() == 0,
            decreases NUM_COMPONENTS - c,
        {
            tables.push(Vec::new());
            c += 1;
        }
        let r = PackedInstrSem { encodings: Vec::new(), tables };
        assert forall|c: int| 0 <= c < NUM_COMPONENTS implies (#[trigger] r@.tables[c]).len() == 0 by {
            assert(r@.tables[c] == byte_lists(tables[c]@));
        }
        r
    }

    /// An encoding with all its components.
    pub fn get(&self, index: usize) -> (r: Encoding)
        requires
            self.wf(),
            index < self@.encodings.len(),
        ensures
            r@ == unpacked_encoding(self@, index as int),
            r.wf(),
    {
        let e = &self.encodings[index];
        let ghost m = self@;
        assert(m.encodings[index as int] == e@);
        let mut components: Vec<Vec<u8>> = Vec::new();
        let mut c: usize = 0;
        while c < NUM_COMPONENTS
            invariant
                self.wf(),
                m == self@,
                index < self.encodings.len(),
                *e == self.encodings[index as int],
                m.encodings[index as int] == e@,
                c <= NUM_COMPONENTS,
                components.len() == c,
                forall|k: int|
                    0 <= k < c ==> (#[trigger] components[k])@ == m.tables[k][e.components[k] as int],
            decreases NUM_COMPONENTS - c,
        {
            assert(m.encodings[index as int].components[c as int] < m.tables[c as int].len());
            assert(m.tables[c as int] == byte_lists(self.tables[c as int]@));
            let n: usize = e.components[c] as usize;
            components.push(copied(&self.tables[c][n]));
            c += 1;
        }
        let r = Encoding { bits: copied(&e.bits), is_rep: e.is_rep, components };
        assert(r@.components =~= unpacked_encoding(self@, index as int).components);
        r
    }

    /// The number of encodings.
    pub fn num_encodings(&self) -> (r: usize)
        ensures
            r == self@.encodings.len(),
    {
        self.encodings.len()
    }

    /// The number of different values of a component.
    pub fn num_components(&self, component: Component) -> (r: usize)
        requires
            self.wf(),
        ensures
            r == self@.tables[component.number()].len(),
    {
        let c: usize = component.index();
        assert(self@.tables[c as int] == byte_lists(self.tables[c as int]@));
        self.tables[c].len()
    }

    pub fn num_names(&self) -> (r: usize)
        requires
            self.wf(),
        ensures
            r == self@.tables[Component::Name.number()].len(),
    {
        self.num_components(Component::Name)
    }

    pub fn num_equivalent_prefixes(&self) -> (r: usize)
        requires
            self.wf(),
        ensures
            r == self@.tables[Component::EquivalentPrefixes.number()].len(),
    {
        self.num_components(Component::EquivalentPrefixes)
    }

    pub fn num_parts(&self) -> (r: usize)
        requires
            self.wf(),
        ensures
            r == self@.tables[Component::Parts.number()].len(),
    {
        self.num_components(Component::Parts)
    }

    pub fn num_addresses(&self) -> (r: usize)
        requires
            self.wf(),
        ensures
            r == self@.tables[Component::Addresses.number()].len(),
    {
        self.num_components(Component::Addresses)
    }

    pub fn num_commands(&self) -> (r: usize)
        requires
            self.wf(),
        ensures
            r == self@.tables[Component::Commands.number()].len(),
    {
        self.num_components(Component::Commands)
    }

    pub fn num_part_packings(&self) -> (r: usize)
        requires
            self.wf(),
        ensures
            r == self@.tables[Component::PartPacking.number()].len(),
    {
        self.num_components(Component::PartPacking)
    }

    /// All encodings with all their components.
    pub fn unpack(self) -> (r: InstrSem)
        requires
            self.wf(),
        ensures
            r@ == unpacked(self@),
            r.wf(),
    {
        let mut encodings: Vec<Encoding> = Vec::new();
        let mut i: usize = 0;
        while i < self.encodings.len()
            invariant
                self.wf(),
                i <= self.encodings.len(),
                encodings.len() == i,
                forall|k: int|
                    0 <= k < i ==> (#[trigger] encodings[k])@ == unpacked_encoding(self@, k)
                        && encodings[k].wf(),
            decreases self.encodings.len() - i,
        {
            encodings.push(self.get(i));
            i += 1;
        }
        let r = InstrSem { encodings };
        assert(r@ =~= unpacked(self@));
        r
    }
}

#[verifier::external_type_specification]
#[verifier::external_body]
pub struct ExFxHasher(FxHasher);

#[verifier::external_type_specification]
#[verifier::external_body]
#[verifier::reject_recursive_types(H)]
pub struct ExBuildHasherDefault<H>(BuildHasherDefault<H>);

/// The entries of a map from the bytes of instructions.
pub uninterp spec fn entries(map: FxHashMap<Vec<u8>, usize>) -> Map<Seq<u8>, usize>;

pub open spec fn no_entries() -> Map<Seq<u8>, usize> {
    Map::empty()
}

/// Calls the `default` function of `fxhash::FxHashMap`. The map is empty.
#[verifier::external_body]
fn new_map() -> (r: FxHashMap<Vec<u8>, usize>)
    ensures
        entries(r) == no_entries(),
{
    FxHashMap::default()
}

/// Calls the `get` method of `fxhash::FxHashMap`. The result is the value of an equal key.
#[verifier::external_body]
fn get_entry(map: &FxHashMap<Vec<u8>, usize>, key: &Vec<u8>) -> (r: Option<usize>)
    ensures
        r == if entries(*map).dom().contains(key@) {
            Some(entries(*map)[key@])
        } else {
            None
        },
{
    map.get(key).copied()
}

/// Calls the `insert` method of `fxhash::FxHashMap`. The value of the key is replaced.
#[verifier::external_body]
fn insert_entry(map: &mut FxHashMap<Vec<u8>, usize>, key: Vec<u8>, value: usize)
    ensures
        entries(*final(map)) == entries(*old(map)).insert(key@, value),
{
    map.insert(key, value);
}

/// Why an instruction is not decoded.
#[derive(Copy, Clone, Debug, PartialEq, Eq, Structural)]
pub enum BaseInstrError {
    /// As many bytes are missing.
    NeedMoreBytes(usize),
    TooManyBytes(usize),
    NoMatch,
}

/// What the maps of encodings say of an instruction.
#[derive(Copy, Clone, Debug, PartialEq, Eq, Structural)]
pub enum Found {
    NotFound,
    /// An encoding that fits.
    Encoding(usize),
    /// An encoding that does not fit.
    Misfit(BaseInstrError),
}

/// An encoding that a map of encodings gives for an instruction.
#[derive(Debug)]
pub struct FoundBase {
    pub index: usize,
    /// The instruction without what varies within the encoding, or why the encoding does not fit.
    pub base: Result<Vec<u8>, BaseInstrError>,
}

/// What is remembered for one combination of segment sizes.
#[derive(Debug)]
pub struct Memo {
    /// The encodings of instructions.
    cache: FxHashMap<Vec<u8>, usize>,
    /// The number of bytes that are missing to incomplete instructions.
    too_short: FxHashMap<Vec<u8>, usize>,
}

pub struct MemoModel {
    pub cache: Map<Seq<u8>, usize>,
    pub too_short: Map<Seq<u8>, usize>,
}

/// Decodes instructions, and remembers the results.
#[derive(Debug)]
pub struct Decoder {
    memos: Vec<Memo>,
}

pub open spec fn memo_number(sizes: SegmentSizes) -> int {
    match sizes {
        SegmentSizes::Cs16Ss16 => 0,
        SegmentSizes::Cs16Ss32 => 1,
        SegmentSizes::Cs32Ss16 => 2,
        SegmentSizes::Cs32Ss32 => 3,
    }
}

fn memo_index(sizes: SegmentSizes) -> (r: usize)
    ensures
        r == memo_number(sizes),
        r < 4,
{
    match sizes {
        SegmentSizes::Cs16Ss16 => 0,
        SegmentSizes::Cs16Ss32 => 1,
        SegmentSizes::Cs32Ss16 => 2,
        SegmentSizes::Cs32Ss32 => 3,
    }
}

impl MemoModel {
    /// The counts of missing bytes are small.
    pub open spec fn counts_small(self) -> bool {
        forall|instr: Seq<u8>|
            self.too_short.dom().contains(instr) ==> #[trigger] self.too_short[instr] < 0x100
    }

    /// What is remembered of an instruction.
    pub open spec fn recalled(self, instr: Seq<u8>) -> Option<Result<usize, BaseInstrError>> {
        if self.too_short.dom().contains(instr) {
            Some(Err(BaseInstrError::NeedMoreBytes(self.too_short[instr])))
        } else if self.cache.dom().contains(instr) {
            Some(Ok(self.cache[instr]))
        } else {
            None
        }
    }

    /// The memory after an instruction was looked up. The count of missing bytes is kept in eight
    /// bits.
    pub open spec fn learned(self, instr: Seq<u8>, found: Found) -> MemoModel {
        match found {
            Found::Encoding(index) => MemoModel { cache: self.cache.insert(instr, index), ..self },
            Found::Misfit(BaseInstrError::NeedMoreBytes(n)) => MemoModel {
                too_short: self.too_short.insert(instr, (n % 0x100) as usize),
                ..self
            },
            _ => self,
        }
    }
}

/// The result of a lookup.
pub open spec fn lookup_result(found: Found) -> Result<usize, BaseInstrError> {
    match found {
        Found::NotFound => Err(BaseInstrError::NoMatch),
        Found::Encoding(index) => Ok(index),
        Found::Misfit(e) => Err(e),
    }
}

impl Memo {
    pub closed spec fn view(&self) -> MemoModel {
        MemoModel { cache: entries(self.cache), too_short: entries(self.too_short) }
    }

    fn new() -> (r: Self)
        ensures
            r@.cache == no_entries(),
            r@.too_short == no_entries(),
    {
        Memo { cache: new_map(), too_short: new_map() }
    }

    fn recall(&self, instr: &Vec<u8>) -> (r: Option<Result<usize, BaseInstrError>>)
        ensures
            r == self@.recalled(instr@),
    {
        match get_entry(&self.too_short, instr) {
            Some(n) => Some(Err(BaseInstrError::NeedMoreBytes(n))),
            None => match get_entry(&self.cache, instr) {
                Some(index) => Some(Ok(index)),
                None => None,
            },
        }
    }

    fn learn(&mut self, instr: &Vec<u8>, found: Found)
        ensures
            final(self)@ == old(self)@.learned(instr@, found),
            old(self)@.counts_small() ==> final(self)@.counts_small(),
    {
        let ghost before = self@;
        match found {
            Found::Encoding(index) => {
                insert_entry(&mut self.cache, copied(instr), index);
            },
            Found::Misfit(BaseInstrError::NeedMoreBytes(n)) => {
                insert_entry(&mut self.too_short, copied(instr), n % 0x100);
            },
            _ => {},
        }
        assert(before.counts_small() ==> self@.counts_small()) by {
            if before.counts_small() {
                assert forall|x: Seq<u8>| self@.too_short.dom().contains(x) implies #[trigger] self@.too_short[x]
                    < 0x100 by {
                    if before.too_short.dom().contains(x) {
                        assert(before.too_short[x] < 0x100);
                    }
                }
            }
        }
    }
}

impl Decoder {
    /// What is remembered, by segment sizes.
    pub closed spec fn view(&self) -> Seq<MemoModel> {
        Seq::new(self.memos.len() as nat, |i: int| self.memos[i]@)
    }

    pub closed spec fn wf(&self) -> bool {
        &&& self.memos.len() == 4
        &&& forall|i: int| 0 <= i < 4 ==> (#[trigger] self.memos[i])@.counts_small()
    }

    pub open spec fn memo(&self, sizes: SegmentSizes) -> MemoModel {
        self@[memo_number(sizes)]
    }

    /// A decoder that remembers nothing.
    pub fn new() -> (r: Self)
        ensures
            r.wf(),
            forall|sizes: SegmentSizes|
                {
                    &&& (#[trigger] r.memo(sizes)).cache == no_entries()
                    &&& r.memo(sizes).too_short == no_entries()
                },
    {
        let mut memos: Vec<Memo> = Vec::new();
        memos.push(Memo::new());
        memos.push(Memo::new());
        memos.push(Memo::new());
        memos.push(Memo::new());
        Decoder { memos }
    }

    /// Finds the encoding of an instruction. `find` is only asked if nothing is remembered.
    pub fn lookup<F: FnOnce() -> Found>(
        &mut self,
        instr: &Vec<u8>,
        segment_sizes: SegmentSizes,
        find: F,
    ) -> (r: Result<usize, BaseInstrError>)
        requires
            old(self).wf(),
            find.requires(()),
        ensures
            final(self).wf(),
            match old(self).memo(segment_sizes).recalled(instr@) {
                Some(known) => r == known && final(self)@ == old(self)@,
                None => exists|found: Found| #[trigger]
                    find.ensures((), found) && r == lookup_result(found) && final(self)@ == old(
                        self,
                    )@.update(
                        memo_number(segment_sizes),
                        old(self).memo(segment_sizes).learned(instr@, found),
                    ),
            },
    {
        let i: usize = memo_index(segment_sizes);
        match self.memos[i].recall(instr) {
            Some(known) => known,
            None => {
                let found = find();
                self.memos[i].learn(instr, found);
                assert(self@ =~= old(self)@.update(
                    i as int,
                    old(self)@[i as int].learned(instr@, found),
                ));
                match found {
                    Found::NotFound => Err(BaseInstrError::NoMatch),
                    Found::Encoding(index) => Ok(index),
                    Found::Misfit(e) => Err(e),
                }
            },
        }
    }

    /// Finds the encoding of an instruction without looking at what is remembered. `find` gives
    /// what the map of encodings for the segment sizes says of the instruction. Returns the base
    /// instruction of the encoding too.
    pub fn lookup_index<F: FnOnce(&Vec<u8>, SegmentSizes) -> Option<FoundBase>>(
        &self,
        instr: &Vec<u8>,
        segment_sizes: SegmentSizes,
        find: F,
    ) -> (r: Result<(Vec<u8>, usize), BaseInstrError>)
        requires
            find.requires((instr, segment_sizes)),
        ensures
            exists|found: Option<FoundBase>| #[trigger]
                find.ensures((instr, segment_sizes), found) && r == index_result(found),
    {
        match find(instr, segment_sizes) {
            Some(FoundBase { index, base }) => match base {
                Ok(base) => Ok((base, index)),
                Err(e) => Err(e),
            },
            None => Err(BaseInstrError::NoMatch),
        }
    }
}

/// What a lookup without memory gives.
pub open spec fn index_result(found: Option<FoundBase>) -> Result<(Vec<u8>, usize), BaseInstrError> {
    match found {
        Some(f) => match f.base {
            Ok(base) => Ok((base, f.index)),
            Err(e) => Err(e),
        },
        None => Err(BaseInstrError::NoMatch),
    }
}

/// What is remembered of an instruction is what was found.
pub proof fn lookups_are_remembered(memo: MemoModel, instr: Seq<u8>, found: Found)
    requires
        memo.recalled(instr) is None,
    ensures
        match found {
            Found::Encoding(index) => memo.learned(instr, found).recalled(instr) == Some(
                Ok::<usize, BaseInstrError>(index),
            ),
            Found::Misfit(BaseInstrError::NeedMoreBytes(n)) => memo.learned(instr, found).recalled(
                instr,
            ) == Some(
                Err::<usize, BaseInstrError>(
                    BaseInstrError::NeedMoreBytes((n % 0x100) as usize),
                ),
            ),
            _ => memo.learned(instr, found).recalled(instr) is None,
        },
{
}

/// The longest instruction.
pub const MAX_INSTR_LEN: usize = 15;

/// What decoding byte by byte asks for.
#[derive(Copy, Clone, Debug, PartialEq, Eq, Structural)]
pub enum DecodeAction {
    /// The next byte.
    NextByte,
    /// What the maps say of the bytes so far.
    Find,
    /// The bytes so far are an instruction.
    Done(usize),
    /// They are not, and never will be.
    NoMatch,
    /// They are longer than the encoding that was found.
    TooLong(usize),
}

/// What has come.
#[derive(Copy, Clone, Debug, PartialEq, Eq, Structural)]
pub enum DecodeEvent {
    Byte(u8),
    Found(Found),
}

/// An instruction that is decoded byte by byte.
#[derive(Debug)]
pub struct DecodeLoop {
    bytes: Vec<u8>,
    /// The number of bytes below which nothing is looked up.
    min_bytes_needed: usize,
    finding: bool,
}

pub struct DecodeModel {
    pub bytes: Seq<u8>,
    pub min_bytes_needed: int,
    pub finding: bool,
}

impl DecodeModel {
    /// After a byte came: what is remembered decides, or the maps are asked.
    pub open spec fn with_byte(self, memo: MemoModel, b: u8) -> (DecodeModel, DecodeAction) {
        let next = DecodeModel { bytes: self.bytes.push(b), ..self };
        if next.bytes.len() < self.min_bytes_needed {
            (next, DecodeAction::NextByte)
        } else {
            match memo.recalled(next.bytes) {
                Some(Err(BaseInstrError::NeedMoreBytes(n))) => (
                    DecodeModel { min_bytes_needed: next.bytes.len() + n, ..next },
                    DecodeAction::NextByte,
                ),
                Some(Ok(index)) => (next, DecodeAction::Done(index)),
                _ => (DecodeModel { finding: true, ..next }, DecodeAction::Find),
            }
        }
    }

    /// After the maps were asked.
    pub open spec fn with_found(self, found: Found) -> (DecodeModel, DecodeAction) {
        let next = DecodeModel { finding: false, ..self };
        match found {
            Found::Encoding(index) => (next, DecodeAction::Done(index)),
            Found::Misfit(BaseInstrError::NeedMoreBytes(n)) => (
                DecodeModel { min_bytes_needed: self.bytes.len() + n, ..next },
                DecodeAction::NextByte,
            ),
            Found::Misfit(BaseInstrError::NoMatch) => (next, DecodeAction::NoMatch),
            Found::Misfit(BaseInstrError::TooManyBytes(n)) => (next, DecodeAction::TooLong(n)),
            Found::NotFound => if self.bytes.len() == MAX_INSTR_LEN {
                (next, DecodeAction::NoMatch)
            } else {
                (next, DecodeAction::NextByte)
            },
        }
    }
}

/// No byte was read yet.
pub open spec fn undecoded() -> DecodeModel {
    DecodeModel { bytes: Seq::empty(), min_bytes_needed: 1, finding: false }
}

impl DecodeLoop {
    pub closed spec fn view(&self) -> DecodeModel {
        DecodeModel {
            bytes: self.bytes@,
            min_bytes_needed: self.min_bytes_needed as int,
            finding: self.finding,
        }
    }

    /// Nothing was read. The first byte is asked for.
    pub fn new() -> (r: Self)
        ensures
            r@ == undecoded(),
    {
        let bytes: Vec<u8> = Vec::new();
        assert(bytes@ =~= Seq::empty());
        DecodeLoop { bytes, min_bytes_needed: 1, finding: false }
    }

    /// The bytes that were read.
    pub fn bytes(&self) -> (r: &Vec<u8>)
        ensures
            r@ == self@.bytes,
    {
        &self.bytes
    }

    /// Goes on with a byte.
    pub fn add_byte(&mut self, decoder: &Decoder, segment_sizes: SegmentSizes, b: u8) -> (r:
        DecodeAction)
        requires
            decoder.wf(),
            !old(self)@.finding,
            old(self)@.bytes.len() < MAX_INSTR_LEN,
        ensures
            (final(self)@, r) == old(self)@.with_byte(decoder.memo(segment_sizes), b),
    {
        self.bytes.push(b);
        assert(self.bytes@ =~= old(self)@.bytes.push(b));
        if self.bytes.len() < self.min_bytes_needed {
            return DecodeAction::NextByte;
        }
        let i: usize = memo_index(segment_sizes);
        assert(decoder.memos[i as int]@.counts_small());
        match decoder.memos[i].recall(&self.bytes) {
            Some(Err(BaseInstrError::NeedMoreBytes(n))) => {
                self.min_bytes_needed = self.bytes.len() + n;
                DecodeAction::NextByte
            },
            Some(Ok(index)) => DecodeAction::Done(index),
            _ => {
                self.finding = true;
                DecodeAction::Find
            },
        }
    }

    /// Goes on with what the maps say, which the decoder remembers.
    pub fn add_found(
        &mut self,
        decoder: &mut Decoder,
        segment_sizes: SegmentSizes,
        found: Found,
    ) -> (r: DecodeAction)
        requires
            old(decoder).wf(),
            old(self)@.finding,
            old(self)@.bytes.len() <= MAX_INSTR_LEN,
            found matches Found::Misfit(BaseInstrError::NeedMoreBytes(n)) ==> n <= MAX_INSTR_LEN,
        ensures
            final(decoder).wf(),
            (final(self)@, r) == old(self)@.with_found(found),
            final(decoder)@ == old(decoder)@.update(
                memo_number(segment_sizes),
                old(decoder).memo(segment_sizes).learned(old(self)@.bytes, found),
            ),
    {
        let i: usize = memo_index(segment_sizes);
        decoder.memos[i].learn(&self.bytes, found);
        assert(decoder@ =~= old(decoder)@.update(
            i as int,
            old(decoder)@[i as int].learned(self.bytes@, found),
        ));
        self.finding = false;
        match found {
            Found::Encoding(index) => DecodeAction::Done(index),
            Found::Misfit(BaseInstrError::NeedMoreBytes(n)) => {
                self.min_bytes_needed = self.bytes.len() + n;
                DecodeAction::NextByte
            },
            Found::Misfit(BaseInstrError::NoMatch) => DecodeAction::NoMatch,
            Found::Misfit(BaseInstrError::TooManyBytes(n)) => DecodeAction::TooLong(n),
            Found::NotFound => {
                if self.bytes.len() == MAX_INSTR_LEN {
                    DecodeAction::NoMatch
                } else {
                    DecodeAction::NextByte
                }
            },
        }
    }
}

/// How decoding ended.
#[derive(Copy, Clone, Debug, PartialEq, Eq, Structural)]
pub enum DecodeResult {
    /// The bytes are an instruction.
    Found(usize),
    NoMatch,
    /// There are no more bytes.
    OutOfBytes,
    /// The bytes are longer than the encoding that was found, or than any instruction.
    TooLong,
}

/// Where decoding stands, with what is remembered.
pub struct Decoding {
    pub memo: MemoModel,
    pub at: DecodeModel,
    pub result: DecodeResult,
}

/// Decoding of the rest of some bytes. `answers` are what the maps say of the first bytes, by
/// their number; nothing is decoded where an answer is missing that is asked for.
pub open spec fn decoded(
    memo: MemoModel,
    at: DecodeModel,
    bytes: Seq<u8>,
    answers: Map<nat, Found>,
) -> Option<Decoding>
    decreases bytes.len() - at.bytes.len(),
{
    let n = at.bytes.len();
    if n >= bytes.len() {
        Some(Decoding { memo, at, result: DecodeResult::OutOfBytes })
    } else if n >= MAX_INSTR_LEN {
        Some(Decoding { memo, at, result: DecodeResult::TooLong })
    } else {
        let (a, action) = at.with_byte(memo, bytes[n as int]);
        match action {
            DecodeAction::Done(index) => Some(
                Decoding { memo, at: a, result: DecodeResult::Found(index) },
            ),
            DecodeAction::Find => if answers.dom().contains(a.bytes.len()) {
                let found = answers[a.bytes.len()];
                let next = memo.learned(a.bytes, found);
                let (b, then) = a.with_found(found);
                match then {
                    DecodeAction::Done(index) => Some(
                        Decoding { memo: next, at: b, result: DecodeResult::Found(index) },
                    ),
                    DecodeAction::NoMatch => Some(
                        Decoding { memo: next, at: b, result: DecodeResult::NoMatch },
                    ),
                    DecodeAction::TooLong(_) => Some(
                        Decoding { memo: next, at: b, result: DecodeResult::TooLong },
                    ),
                    _ => decoded(next, b, bytes, answers),
                }
            } else {
                None
            },
            _ => decoded(memo, a, bytes, answers),
        }
    }
}

/// Whether the answers are those of `find` to the first bytes.
pub open spec fn answered<F: Fn(&Vec<u8>) -> Found>(
    find: F,
    bytes: Seq<u8>,
    answers: Map<nat, Found>,
) -> bool {
    forall|n: nat| #[trigger]
        answers.dom().contains(n) ==> exists|v: Vec<u8>| #[trigger]
            find.ensures((&v,), answers[n]) && v@ == bytes.take(n as int)
}

/// Whether a map holds at least the answers of another one.
spec fn extends(more: Map<nat, Found>, answers: Map<nat, Found>) -> bool {
    forall|n: nat| #[trigger]
        answers.dom().contains(n) ==> more.dom().contains(n) && more[n] == answers[n]
}

impl Decoder {
    /// Decodes an instruction byte by byte. `find` is only asked if nothing is remembered of the
    /// bytes so far, and its answers are remembered. Returns the bytes that were used too.
    ///
    /// No instruction is longer than 15 bytes, so `find` never asks for more than that.
    pub fn lookup_iteratively<F: Fn(&Vec<u8>) -> Found>(
        &mut self,
        bytes: &Vec<u8>,
        segment_sizes: SegmentSizes,
        find: F,
    ) -> (r: (DecodeResult, Vec<u8>))
        requires
            old(self).wf(),
            forall|v: &Vec<u8>| #[trigger] find.requires((v,)),
            forall|v: &Vec<u8>, f: Found| #[trigger]
                find.ensures((v,), f) ==> (f matches Found::Misfit(BaseInstrError::NeedMoreBytes(n))
                    ==> n <= MAX_INSTR_LEN),
        ensures
            final(self).wf(),
            exists|answers: Map<nat, Found>|
                {
                    let d = decoded(
                        old(self).memo(segment_sizes),
                        undecoded(),
                        bytes@,
                        answers,
                    );
                    &&& #[trigger] answered(find, bytes@, answers)
                    &&& d.is_some()
                    &&& r.0 == d.unwrap().result
                    &&& r.1@ == d.unwrap().at.bytes
                    &&& final(self)@ == old(self)@.update(
                        memo_number(segment_sizes),
                        d.unwrap().memo,
                    )
                },
    {
        let ghost answers: Map<nat, Found> = Map::empty();
        let mut at = DecodeLoop::new();
        let ghost start = at@;
        let ghost memo0 = self.memo(segment_sizes);
        let ghost before = self@;
        let ghost which = memo_number(segment_sizes);
        assert(self@ =~= before.update(which, memo0));
        loop
            invariant
                self.wf(),
                before == old(self)@,
                which == memo_number(segment_sizes),
                0 <= which < before.len(),
                memo0 == old(self).memo(segment_sizes),
                start == undecoded(),
                forall|v: &Vec<u8>| #[trigger] find.requires((v,)),
                forall|v: &Vec<u8>, f: Found| #[trigger]
                    find.ensures((v,), f) ==> (f matches Found::Misfit(
                        BaseInstrError::NeedMoreBytes(n),
                    ) ==> n <= MAX_INSTR_LEN),
                !at@.finding,
                at@.bytes.len() <= bytes.len(),
                at@.bytes.len() <= MAX_INSTR_LEN,
                at@.bytes == bytes@.take(at@.bytes.len() as int),
                answered(find, bytes@, answers),
                forall|n: nat| #[trigger] answers.dom().contains(n) ==> n <= at@.bytes.len(),
                self@ == before.update(which, self.memo(segment_sizes)),
                forall|m: Map<nat, Found>|
                    extends(m, answers) ==> #[trigger] decoded(memo0, start, bytes@, m) == decoded(
                        self.memo(segment_sizes),
                        at@,
                        bytes@,
                        m,
                    ),
            decreases bytes.len() - at@.bytes.len(),
        {
            assert(extends(answers, answers));
            let n: usize = at.bytes().len();
            if n >= bytes.len() {
                let used = copied(at.bytes());
                return (DecodeResult::OutOfBytes, used);
            }
            if n >= MAX_INSTR_LEN {
                let used = copied(at.bytes());
                return (DecodeResult::TooLong, used);
            }
            let action = at.add_byte(self, segment_sizes, bytes[n]);
            assert(at@.bytes =~= bytes@.take(n + 1));
            match action {
                DecodeAction::Done(index) => {
                    let used = copied(at.bytes());
                    return (DecodeResult::Found(index), used);
                },
                DecodeAction::Find => {
                    let asked: &Vec<u8> = at.bytes();
                    let ghost v = *asked;
                    let found = find(asked);
                    assert(find.ensures((&v,), found));
                    let ghost len = (n + 1) as nat;
                    let ghost more = answers.insert(len, found);
                    proof {
                        assert(answered(find, bytes@, more)) by {
                            assert forall|k: nat| #[trigger] more.dom().contains(k) implies exists|v: Vec<u8>|
                                #[trigger] find.ensures((&v,), more[k]) && v@ == bytes@.take(k as int) by {
                                if k != len {
                                    assert(answers.dom().contains(k));
                                    let w = choose|w: Vec<u8>| #[trigger]
                                        find.ensures((&w,), answers[k]) && w@ == bytes@.take(
                                            k as int,
                                        );
                                    assert(more[k] == answers[k]);
                                    assert(find.ensures((&w,), more[k]));
                                } else {
                                    assert(find.ensures((&v,), more[k]) && v@ == bytes@.take(
                                        k as int,
                                    ));
                                }
                            }
                        }
                    }
                    let then = at.add_found(self, segment_sizes, found);
                    proof {
                        assert forall|m: Map<nat, Found>| extends(m, more) implies extends(
                            m,
                            answers,
                        ) && m.dom().contains(len) && m[len] == found by {
                            assert(more.dom().contains(len));
                            assert forall|k: nat| #[trigger]
                                answers.dom().contains(k) implies m.dom().contains(k) && m[k]
                                == answers[k] by {
                                assert(more.dom().contains(k));
                                assert(k <= n);
                            }
                        }
                        answers = more;
                        assert(extends(answers, answers));
                    }
                    assert(self@ =~= before.update(which, self.memo(segment_sizes)));
                    match then {
                        DecodeAction::Done(index) => {
                            let used = copied(at.bytes());
                            return (DecodeResult::Found(index), used);
                        },
                        DecodeAction::NoMatch => {
                            let used = copied(at.bytes());
                            return (DecodeResult::NoMatch, used);
                        },
                        DecodeAction::TooLong(_) => {
                            let used = copied(at.bytes());
                            return (DecodeResult::TooLong, used);
                        },
                        _ => {},
                    }
                },
                _ => {},
            }
        }
    }
}

} // verus!
