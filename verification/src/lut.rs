//! Lookup dispatch: a transform bound either to a precomputed table or to the
//! function that computes it, and the generator that turns the second into
//! the first.
//!
//! A table is a flat run of rows without header or padding. Row `i` holds the
//! bytes of the transform's result on the `i`-th value of the input type, so
//! the row of an input starts at its index times the row width.

use crate::endian::{le_bytes, le_word, lemma_word_round_trip, word_from_le, word_to_le};
use std::marker::PhantomData;
use vstd::arithmetic::div_mod::{lemma_fundamental_div_mod, lemma_mod_pos_bound};
use vstd::prelude::*;

verus! {

/// A value that can be looked up in a table: the values of the type are
/// numbered from zero, in ascending order.
pub trait MapIn: Sized {
    /// How many values the type has.
    spec fn cardinality() -> nat;

    /// The number of a value.
    spec fn index_of(self) -> nat;

    /// The value with a given number.
    spec fn value_at(index: nat) -> Self;

    /// Every value has a number below the cardinality, and is the value at
    /// that number.
    proof fn lemma_value_at_index_of(self)
        ensures
            self.index_of() < Self::cardinality(),
            Self::value_at(self.index_of()) == self,
    ;

    /// Every number below the cardinality is the number of the value at it.
    proof fn lemma_index_of_value_at(index: nat)
        requires
            index < Self::cardinality(),
        ensures
            Self::value_at(index).index_of() == index,
    ;

    /// Gives the number of a value.
    fn map_in(self) -> (index: usize)
        ensures
            index == self.index_of(),
    ;

    /// Gives the value with a given number.
    fn from_index(index: usize) -> (value: Self)
        requires
            index < Self::cardinality(),
        ensures
            value == Self::value_at(index as nat),
    ;
}

/// A value that can be stored in a table, as a row of `N` bytes.
pub trait MapOut<const N: usize>: Sized {
    /// The value that a row holds.
    spec fn decode(bytes: Seq<u8>) -> Self
        recommends
            bytes.len() == N,
    ;

    /// The row that holds a value.
    spec fn encode(self) -> Seq<u8>;

    /// A value's row has `N` bytes, and holds the value.
    proof fn lemma_decode_encode(self)
        ensures
            self.encode().len() == N,
            Self::decode(self.encode()) == self,
    ;

    /// Reads a value from its row.
    fn map_out(bytes: [u8; N]) -> (value: Self)
        ensures
            value == Self::decode(bytes@),
    ;

    /// Writes a value as its row.
    fn to_bytes(self) -> (bytes: [u8; N])
        ensures
            bytes@ == self.encode(),
    ;
}

impl MapIn for u8 {
    open spec fn cardinality() -> nat {
        256
    }

    open spec fn index_of(self) -> nat {
        self as nat
    }

    open spec fn value_at(index: nat) -> Self {
        index as u8
    }

    proof fn lemma_value_at_index_of(self) {
    }

    proof fn lemma_index_of_value_at(index: nat) {
    }

    fn map_in(self) -> (index: usize) {
        self as usize
    }

    fn from_index(index: usize) -> (value: Self) {
        index as u8
    }
}

impl MapIn for u16 {
    open spec fn cardinality() -> nat {
        65536
    }

    open spec fn index_of(self) -> nat {
        self as nat
    }

    open spec fn value_at(index: nat) -> Self {
        index as u16
    }

    proof fn lemma_value_at_index_of(self) {
    }

    proof fn lemma_index_of_value_at(index: nat) {
    }

    fn map_in(self) -> (index: usize) {
        self as usize
    }

    fn from_index(index: usize) -> (value: Self) {
        index as u16
    }
}

/// Three bytes are numbered as the 24-bit integer that they spell, most
/// significant byte first.
impl MapIn for [u8; 3] {
    open spec fn cardinality() -> nat {
        16777216
    }

    open spec fn index_of(self) -> nat {
        (self[0] * 65536 + self[1] * 256 + self[2]) as nat
    }

    open spec fn value_at(index: nat) -> Self {
        [(index / 65536 % 256) as u8, (index / 256 % 256) as u8, (index % 256) as u8]
    }

    proof fn lemma_value_at_index_of(self) {
        let high = self[0] as int;
        let middle = self[1] as int;
        let low = self[2] as int;
        let index = high * 65536 + middle * 256 + low;
        assert(index / 65536 == high);
        assert(index / 256 == high * 256 + middle);
        assert(index % 256 == low);
        let value = Self::value_at(self.index_of());
        assert(value[0] == self[0]);
        assert(value[1] == self[1]);
        assert(value[2] == self[2]);
        assert(value =~= self);
    }

    proof fn lemma_index_of_value_at(index: nat) {
        let value = Self::value_at(index);
        assert(value[0] == index / 65536);
        assert(value[1] == index / 256 % 256);
        assert(value[2] == index % 256);
    }

    fn map_in(self) -> (index: usize) {
        self[0] as usize * 65536 + self[1] as usize * 256 + self[2] as usize
    }

    fn from_index(index: usize) -> (value: Self) {
        [(index / 65536) as u8, (index / 256 % 256) as u8, (index % 256) as u8]
    }
}

impl MapOut<1> for u8 {
    open spec fn decode(bytes: Seq<u8>) -> Self {
        bytes[0]
    }

    open spec fn encode(self) -> Seq<u8> {
        seq![self]
    }

    proof fn lemma_decode_encode(self) {
    }

    fn map_out(bytes: [u8; 1]) -> (value: Self) {
        bytes[0]
    }

    fn to_bytes(self) -> (bytes: [u8; 1]) {
        let bytes = [self];
        assert(bytes@ =~= self.encode());
        bytes
    }
}

/// A 16-bit word is stored low byte first.
impl MapOut<2> for u16 {
    open spec fn decode(bytes: Seq<u8>) -> Self {
        le_word(bytes)
    }

    open spec fn encode(self) -> Seq<u8> {
        le_bytes(self)
    }

    proof fn lemma_decode_encode(self) {
        lemma_word_round_trip(self);
    }

    fn map_out(bytes: [u8; 2]) -> (value: Self) {
        word_from_le(bytes)
    }

    fn to_bytes(self) -> (bytes: [u8; 2]) {
        word_to_le(self)
    }
}

/// Three bytes are stored as they are.
impl MapOut<3> for [u8; 3] {
    open spec fn decode(bytes: Seq<u8>) -> Self {
        [bytes[0], bytes[1], bytes[2]]
    }

    open spec fn encode(self) -> Seq<u8> {
        self@
    }

    proof fn lemma_decode_encode(self) {
        assert(Self::decode(self.encode()) =~= self);
    }

    fn map_out(bytes: [u8; 3]) -> (value: Self) {
        assert(Self::decode(bytes@) =~= bytes);
        bytes
    }

    fn to_bytes(self) -> (bytes: [u8; 3]) {
        self
    }
}

/// The row of a table at a given index, for rows of `width` bytes.
pub open spec fn row(table: Seq<u8>, width: nat, index: nat) -> Seq<u8> {
    table.subrange((index * width) as int, (index * width + width) as int)
}

/// What a [`Lutable`] is bound to.
pub enum Binding<F> {
    /// The bytes of a precomputed table.
    Table(Seq<u8>),
    /// The function that computes the transform.
    Formula(F),
}

/// A transform from `I` to `O` that is backed either by a table of `N` bytes
/// in rows of `S` bytes, or by the function `F` that computes it. Which of
/// the two is fixed when the value is made.
#[verifier::reject_recursive_types(I)]
#[verifier::reject_recursive_types(O)]
#[verifier::reject_recursive_types(F)]
pub struct Lutable<I: MapIn, O: MapOut<S>, F: Fn(I) -> O, const N: usize, const S: usize> {
    binding: Result<&'static [u8; N], F>,
    marker: PhantomData<(I, O)>,
}

/// The exchange of the two 5-bit channels of a packed word.
pub type SwapComponentsLut<F> = Lutable<u16, u16, F, 131072, 2>;

/// A 5-bit linear channel to an 8-bit linear channel.
pub type L5ToL8Lut<F> = Lutable<u8, u8, F, 32, 1>;

/// A 6-bit linear channel to an 8-bit linear channel.
pub type L6ToL8Lut<F> = Lutable<u8, u8, F, 64, 1>;

/// A 5-bit linear channel to an 8-bit sRGB channel.
pub type L5ToS8Lut<F> = Lutable<u8, u8, F, 32, 1>;

/// A 6-bit linear channel to an 8-bit sRGB channel.
pub type L6ToS8Lut<F> = Lutable<u8, u8, F, 64, 1>;

/// A packed word to three linear 8-bit components.
pub type L565ToL888Lut<F> = Lutable<u16, [u8; 3], F, 196608, 3>;

/// A packed word to three sRGB 8-bit components.
pub type L565ToS888Lut<F> = Lutable<u16, [u8; 3], F, 196608, 3>;

/// An 8-bit linear channel to a 5-bit linear channel.
pub type L8ToL5Lut<F> = Lutable<u8, u8, F, 256, 1>;

/// An 8-bit linear channel to a 6-bit linear channel.
pub type L8ToL6Lut<F> = Lutable<u8, u8, F, 256, 1>;

/// An 8-bit sRGB channel to a 5-bit linear channel.
pub type S8ToL5Lut<F> = Lutable<u8, u8, F, 256, 1>;

/// An 8-bit sRGB channel to a 6-bit linear channel.
pub type S8ToL6Lut<F> = Lutable<u8, u8, F, 256, 1>;

/// Three linear 8-bit components to a packed word. Its table has a row for
/// each of the 16,777,216 colours of 24 bits, 32 MiB in all.
pub type L888ToL565Lut<F> = Lutable<[u8; 3], u16, F, 33554432, 2>;

/// Three sRGB 8-bit components to a packed word. Its table has a row for
/// each of the 16,777,216 colours of 24 bits, 32 MiB in all.
pub type S888ToL565Lut<F> = Lutable<[u8; 3], u16, F, 33554432, 2>;

impl<I: MapIn, O: MapOut<S>, F: Fn(I) -> O, const N: usize, const S: usize> View for Lutable<
    I,
    O,
    F,
    N,
    S,
> {
    type V = Binding<F>;

    closed spec fn view(&self) -> Binding<F> {
        match self.binding {
            Ok(table) => Binding::Table(table@),
            Err(formula) => Binding::Formula(formula),
        }
    }
}

impl<I: MapIn, O: MapOut<S>, F: Fn(I) -> O, const N: usize, const S: usize> Lutable<I, O, F, N, S> {
    /// Whether `value` is in the domain of the transform: its row lies
    /// within the table, or the function takes it.
    pub open spec fn accepts(&self, value: I) -> bool {
        match self@ {
            Binding::Table(table) => (value.index_of() + 1) * S <= N,
            Binding::Formula(formula) => call_requires(formula, (value,)),
        }
    }

    /// Whether the transform may give `out` for `value`: `out` is what the
    /// row of `value` holds, or a result of the function on `value`.
    pub open spec fn maps(&self, value: I, out: O) -> bool {
        match self@ {
            Binding::Table(table) => out == O::decode(row(table, S as nat, value.index_of())),
            Binding::Formula(formula) => call_ensures(formula, (value,), out),
        }
    }

    /// Whether the row of `table` at `index` holds a result of the transform
    /// on the value with that index.
    pub open spec fn holds_row(&self, table: Seq<u8>, index: nat) -> bool {
        exists|out: O|
            self.maps(I::value_at(index), out) && row(table, S as nat, index) == #[trigger] out.encode()
    }

    /// Whether the transform gives one result on each value.
    pub open spec fn single_valued(&self) -> bool {
        forall|value: I, first: O, second: O|
            #[trigger] self.maps(value, first) && #[trigger] self.maps(value, second) ==> first
                == second
    }

    /// Whether a table can be made of the transform: the table is a whole
    /// number of rows, one for each of the first values of the input type,
    /// and each of these values is in the domain.
    pub open spec fn tabulable(&self) -> bool {
        &&& S > 0
        &&& N % S == 0
        &&& N / S <= I::cardinality()
        &&& forall|index: nat| index < N / S ==> self.accepts(#[trigger] I::value_at(index))
    }

    /// Whether `table` is a table of the transform: it has `N` bytes, a
    /// whole number of rows, and each row holds a result of the transform on
    /// the value with the row's index.
    pub open spec fn tabulated_by(&self, table: Seq<u8>) -> bool {
        &&& S > 0
        &&& N % S == 0
        &&& table.len() == N
        &&& forall|index: nat| index < N / S ==> #[trigger] self.holds_row(table, index)
    }

    /// Binds the transform to a precomputed table.
    pub fn from_table(table: &'static [u8; N]) -> (lut: Self)
        ensures
            lut@ == Binding::<F>::Table(table@),
    {
        Lutable { binding: Ok(table), marker: PhantomData }
    }

    /// Binds the transform to the function that computes it.
    pub fn from_fn(formula: F) -> (lut: Self)
        ensures
            lut@ == Binding::Formula(formula),
    {
        Lutable { binding: Err(formula), marker: PhantomData }
    }

    /// Applies the transform to `value`, by reading the row of `value` from
    /// the table or by calling the function.
    pub fn map(&self, value: I) -> (out: O)
        requires
            self.accepts(value),
        ensures
            self.maps(value, out),
    {
        match &self.binding {
            Ok(table) => {
                let index: usize = value.map_in();
                assert(index * S + S <= N) by (nonlinear_arith)
                    requires
                        (index + 1) * S <= N,
                ;
                let start: usize = index * S;
                let mut bytes: [u8; S] = [0u8; S];
                let mut at: usize = 0;
                while at < S
                    invariant
                        at <= S,
                        start + S <= N,
                        forall|k: int| 0 <= k < at ==> bytes@[k] == table@[start + k],
                    decreases S - at,
                {
                    bytes[at] = table[start + at];
                    at += 1;
                }
                assert(bytes@ =~= row(table@, S as nat, index as nat));
                O::map_out(bytes)
            },
            Err(formula) => formula(value),
        }
    }
}

/// Makes the table of a transform: for each value of the domain, in ascending
/// order of index, the bytes of the transform's result.
pub fn generate_table<I: MapIn, O: MapOut<S>, F: Fn(I) -> O, const N: usize, const S: usize>(
    source: &Lutable<I, O, F, N, S>,
) -> (table: Vec<u8>)
    requires
        source.tabulable(),
    ensures
        source.tabulated_by(table@),
{
    let rows: usize = N / S;
    let mut table: Vec<u8> = Vec::new();
    let mut index: usize = 0;
    while index < rows
        invariant
            S > 0,
            rows == N / S,
            N % S == 0,
            source.tabulable(),
            index <= rows,
            table@.len() == index * S,
            forall|done: nat| done < index ==> #[trigger] source.holds_row(table@, done),
        decreases rows - index,
    {
        let out = source.map(I::from_index(index));
        let bytes = out.to_bytes();
        let ghost before = table@;
        proof {
            out.lemma_decode_encode();
        }
        let mut at: usize = 0;
        while at < S
            invariant
                at <= S,
                bytes@.len() == S,
                table@ == before + bytes@.subrange(0, at as int),
            decreases S - at,
        {
            table.push(bytes[at]);
            at += 1;
            assert(table@ =~= before + bytes@.subrange(0, at as int));
        }
        proof {
            assert((index + 1) * S == index * S + S) by (nonlinear_arith);
            assert(row(table@, S as nat, index as nat) =~= bytes@);
            assert forall|done: nat| done < index implies #[trigger] source.holds_row(
                table@,
                done,
            ) by {
                assert(source.holds_row(before, done));
                assert((done + 1) * S <= index * S) by (nonlinear_arith)
                    requires
                        done < index,
                        S > 0,
                ;
                assert((done + 1) * S == done * S + S) by (nonlinear_arith);
                assert(row(table@, S as nat, done) =~= row(before, S as nat, done));
            }
        }
        index += 1;
    }
    proof {
        assert(rows * S == N) by (nonlinear_arith)
            requires
                rows == N / S,
                N % S == 0,
                S > 0,
        ;
    }
    table
}

/// A table with a row for every value of the input type has no value outside
/// its domain: every lookup stays within the table.
pub proof fn lemma_whole_table_accepts_all<
    I: MapIn,
    O: MapOut<S>,
    F: Fn(I) -> O,
    const N: usize,
    const S: usize,
>(tabled: Lutable<I, O, F, N, S>, value: I)
    requires
        tabled@ is Table,
        I::cardinality() * S <= N,
    ensures
        tabled.accepts(value),
{
    value.lemma_value_at_index_of();
    assert((value.index_of() + 1) * S <= I::cardinality() * S) by (nonlinear_arith)
        requires
            value.index_of() < I::cardinality(),
    ;
}

/// A table-backed transform agrees with the transform that its table was made
/// of: on every value of its domain, what the table gives is a result of the
/// source on that value.
pub proof fn lemma_table_agrees_with_source<
    I: MapIn,
    O: MapOut<S>,
    F: Fn(I) -> O,
    G: Fn(I) -> O,
    const N: usize,
    const S: usize,
>(source: Lutable<I, O, F, N, S>, tabled: Lutable<I, O, G, N, S>, value: I, out: O)
    requires
        tabled@ matches Binding::Table(table) && source.tabulated_by(table),
        tabled.accepts(value),
        tabled.maps(value, out),
    ensures
        source.maps(value, out),
{
    let table = tabled@->Table_0;
    let index = value.index_of();
    value.lemma_value_at_index_of();
    assert(index < N / S) by (nonlinear_arith)
        requires
            (index + 1) * S <= N,
            S > 0,
    ;
    assert(source.holds_row(table, index));
    let stored = choose|stored: O|
        source.maps(I::value_at(index), stored) && row(table, S as nat, index)
            == #[trigger] stored.encode();
    stored.lemma_decode_encode();
}

/// On every value of its domain, a table-backed transform gives the result
/// that the transform its table was made of gives, where that transform gives
/// one result on each value.
pub proof fn lemma_table_equals_source<
    I: MapIn,
    O: MapOut<S>,
    F: Fn(I) -> O,
    G: Fn(I) -> O,
    const N: usize,
    const S: usize,
>(
    source: Lutable<I, O, F, N, S>,
    tabled: Lutable<I, O, G, N, S>,
    value: I,
    by_source: O,
    by_table: O,
)
    requires
        tabled@ matches Binding::Table(table) && source.tabulated_by(table),
        source.single_valued(),
        tabled.accepts(value),
        source.maps(value, by_source),
        tabled.maps(value, by_table),
    ensures
        by_table == by_source,
{
    lemma_table_agrees_with_source(source, tabled, value, by_table);
}

/// A transform that gives one result on each value has one table: any two
/// tables of it are equal byte for byte.
pub proof fn lemma_table_unique<I: MapIn, O: MapOut<S>, F: Fn(I) -> O, const N: usize, const S: usize>(
    source: Lutable<I, O, F, N, S>,
    first: Seq<u8>,
    second: Seq<u8>,
)
    requires
        source.single_valued(),
        source.tabulated_by(first),
        source.tabulated_by(second),
    ensures
        first == second,
{
    assert forall|at: int| 0 <= at < N implies first[at] == second[at] by {
        let width = S as int;
        let index = at / width;
        let offset = at % width;
        lemma_fundamental_div_mod(at, width);
        lemma_mod_pos_bound(at, width);
        lemma_fundamental_div_mod(N as int, width);
        assert(0 <= index < N / S) by (nonlinear_arith)
            requires
                0 <= at < N,
                width > 0,
                at == width * index + offset,
                0 <= offset < width,
                N == width * (N / S),
        ;
        assert(index * width + width <= N) by (nonlinear_arith)
            requires
                index < N / S,
                width > 0,
                N == width * (N / S),
        ;
        assert(at == index * width + offset) by (nonlinear_arith)
            requires
                at == width * index + offset,
        ;
        assert(source.holds_row(first, index as nat));
        assert(source.holds_row(second, index as nat));
        assert(row(first, S as nat, index as nat)[offset] == first[at]);
        assert(row(second, S as nat, index as nat)[offset] == second[at]);
    }
    assert(first =~= second);
}

} // verus!
