//! Fixed little-endian byte layout for event ids, model values and tensors.
//!
//! Model values are IEEE-754 single-precision floats; here they travel as their
//! 32-bit patterns, so the layout does not depend on the host's byte order.
use vstd::prelude::*;
use vstd::bytes::{spec_u64_from_le_bytes, spec_u64_to_le_bytes, spec_u64_to_le_bytes_to_open, u64_from_le_bytes};
use std::collections::VecDeque;
use crate::EventId;
use crate::quote::QuoteEvent;
use crate::data_info::{MODEL_OUTPUT_WIDTH, SERIES1_ITEM_SIZE, SERIES1_SIZE};

verus! {

/// Why a byte sequence could not be decoded.
#[derive(Debug, Clone, Copy, PartialEq, Eq, Structural)]
pub enum CodecError {
    /// The input does not hold exactly `expected` bytes.
    LengthMismatch { expected: usize, actual: usize },
}

/// Byte `k` (0 = least significant) of a 32-bit word.
pub open spec fn word_byte(w: u32, k: int) -> u8 {
    ((w >> ((8 * k) as u32)) & 0xff) as u8
}

/// The word whose little-endian bytes are `b0, b1, b2, b3`.
pub open spec fn word_from_bytes(b0: u8, b1: u8, b2: u8, b3: u8) -> u32 {
    (b0 as u32) | ((b1 as u32) << 8) | ((b2 as u32) << 16) | ((b3 as u32) << 24)
}

/// Each word written as four little-endian bytes, one word after another.
pub open spec fn words_to_bytes(ws: Seq<u32>) -> Seq<u8> {
    Seq::new(4 * ws.len(), |j: int| word_byte(ws[j / 4], j % 4))
}

/// Groups of four little-endian bytes read back as words.
pub open spec fn bytes_to_words(bs: Seq<u8>) -> Seq<u32> {
    Seq::new(bs.len() / 4, |i: int| word_from_bytes(bs[4 * i], bs[4 * i + 1], bs[4 * i + 2], bs[4 * i + 3]))
}

/// The 8 little-endian bytes of the id's two's-complement form.
pub open spec fn event_id_bytes(e: EventId) -> Seq<u8> {
    spec_u64_to_le_bytes(e as u64)
}

/// The id whose two's-complement form has the little-endian bytes `b`.
pub open spec fn event_id_of_bytes(b: Seq<u8>) -> EventId {
    spec_u64_from_le_bytes(b) as i64
}

proof fn lemma_word_bytes_round_trip(w: u32)
    ensures
        word_from_bytes(word_byte(w, 0), word_byte(w, 1), word_byte(w, 2), word_byte(w, 3)) == w,
{
    assert(w == ((((w >> 0u32) & 0xff) as u8) as u32) | (((((w >> 8u32) & 0xff) as u8) as u32) << 8)
        | (((((w >> 16u32) & 0xff) as u8) as u32) << 16) | (((((w >> 24u32) & 0xff) as u8) as u32) << 24))
        by (bit_vector);
}

proof fn lemma_bytes_word_round_trip(b0: u8, b1: u8, b2: u8, b3: u8)
    ensures
        word_byte(word_from_bytes(b0, b1, b2, b3), 0) == b0,
        word_byte(word_from_bytes(b0, b1, b2, b3), 1) == b1,
        word_byte(word_from_bytes(b0, b1, b2, b3), 2) == b2,
        word_byte(word_from_bytes(b0, b1, b2, b3), 3) == b3,
{
    let w = word_from_bytes(b0, b1, b2, b3);
    assert(w == (b0 as u32) | ((b1 as u32) << 8) | ((b2 as u32) << 16) | ((b3 as u32) << 24));
    assert(w == (b0 as u32) | ((b1 as u32) << 8) | ((b2 as u32) << 16) | ((b3 as u32) << 24) ==> (
        (((w >> 0u32) & 0xff) as u8) == b0 && (((w >> 8u32) & 0xff) as u8) == b1
        && (((w >> 16u32) & 0xff) as u8) == b2 && (((w >> 24u32) & 0xff) as u8) == b3)) by (bit_vector);
}

/// Decoding the bytes of a word sequence gives the words back.
pub proof fn lemma_words_round_trip(ws: Seq<u32>)
    ensures
        bytes_to_words(words_to_bytes(ws)) == ws,
{
    let bs = words_to_bytes(ws);
    assert forall|i: int| 0 <= i < ws.len() implies #[trigger] bytes_to_words(bs)[i] == ws[i] by {
        lemma_word_bytes_round_trip(ws[i]);
        assert(bs[4 * i] == word_byte(ws[i], 0));
        assert(bs[4 * i + 1] == word_byte(ws[i], 1));
        assert(bs[4 * i + 2] == word_byte(ws[i], 2));
        assert(bs[4 * i + 3] == word_byte(ws[i], 3));
    }
    assert(bytes_to_words(bs) =~= ws);
}

/// Encoding the words read from a byte sequence of whole words gives the bytes back.
pub proof fn lemma_bytes_round_trip(bs: Seq<u8>)
    requires
        bs.len() % 4 == 0,
    ensures
        words_to_bytes(bytes_to_words(bs)) == bs,
{
    let ws = bytes_to_words(bs);
    assert forall|j: int| 0 <= j < bs.len() implies #[trigger] words_to_bytes(ws)[j] == bs[j] by {
        let i = j / 4;
        lemma_bytes_word_round_trip(bs[4 * i], bs[4 * i + 1], bs[4 * i + 2], bs[4 * i + 3]);
    }
    assert(words_to_bytes(ws) =~= bs);
}


/// Row-major flattening of a tensor whose rows all have `SERIES1_ITEM_SIZE` cells.
pub open spec fn flatten_rows(t: Seq<Seq<u32>>) -> Seq<u32> {
    Seq::new(t.len() * (SERIES1_ITEM_SIZE as nat), |k: int| t[k / SERIES1_ITEM_SIZE as int][k % SERIES1_ITEM_SIZE as int])
}

/// Cuts a flat sequence into rows of `SERIES1_ITEM_SIZE` cells.
pub open spec fn unflatten_rows(flat: Seq<u32>) -> Seq<Seq<u32>> {
    Seq::new(
        flat.len() / SERIES1_ITEM_SIZE as nat,
        |i: int| flat.subrange(i * SERIES1_ITEM_SIZE, i * SERIES1_ITEM_SIZE + SERIES1_ITEM_SIZE),
    )
}

/// A tensor of `rows` rows of `SERIES1_ITEM_SIZE` cells each.
pub open spec fn has_row_shape(t: Seq<Seq<u32>>, rows: int) -> bool {
    &&& t.len() == rows
    &&& forall|i: int| 0 <= i < rows ==> (#[trigger] t[i]).len() == SERIES1_ITEM_SIZE
}

/// The model input tensor's shape: `SERIES1_SIZE` rows of `SERIES1_ITEM_SIZE` cells.
pub open spec fn is_input_shape(t: Seq<Seq<u32>>) -> bool {
    has_row_shape(t, SERIES1_SIZE as int)
}

/// Writes an event id as 8 little-endian bytes.
pub fn event_id_to_bytes(e: EventId) -> (r: [u8; 8])
    ensures
        r@ == event_id_bytes(e),
{
    let x = e as u64;
    let r = [
        (x & 0xff) as u8,
        ((x >> 8) & 0xff) as u8,
        ((x >> 16) & 0xff) as u8,
        ((x >> 24) & 0xff) as u8,
        ((x >> 32) & 0xff) as u8,
        ((x >> 40) & 0xff) as u8,
        ((x >> 48) & 0xff) as u8,
        ((x >> 56) & 0xff) as u8,
    ];
    proof {
        spec_u64_to_le_bytes_to_open(x);
        assert(r@ =~= event_id_bytes(e));
    }
    r
}

/// Reads an event id from 8 little-endian bytes.
pub fn bytes_to_event_id(b: [u8; 8]) -> (r: EventId)
    ensures
        r == event_id_of_bytes(b@),
{
    (u64_from_le_bytes(b.as_slice()) as i64)
}

/// Reading back the bytes of an event id gives the id.
pub proof fn lemma_event_id_round_trip(e: EventId)
    ensures
        event_id_of_bytes(event_id_bytes(e)) == e,
{
    vstd::bytes::lemma_auto_spec_u64_to_from_le_bytes();
    let u = e as u64;
    assert((u as i64) == e) by (bit_vector)
        requires u == e as u64;
}

/// Writes the bit pattern of one model value as 4 little-endian bytes.
pub fn float_to_bytes(bits: u32) -> (r: [u8; 4])
    ensures
        r@ == words_to_bytes(seq![bits]),
{
    let r = [
        (bits & 0xff) as u8,
        ((bits >> 8) & 0xff) as u8,
        ((bits >> 16) & 0xff) as u8,
        ((bits >> 24) & 0xff) as u8,
    ];
    proof {
        assert(bits == bits >> 0u32) by (bit_vector);
        assert(r@ =~= words_to_bytes(seq![bits]));
    }
    r
}

/// Writes words as consecutive groups of four little-endian bytes.
pub fn encode_words(ws: &Vec<u32>) -> (r: Vec<u8>)
    ensures
        r@ == words_to_bytes(ws@),
{
    let mut r: Vec<u8> = Vec::new();
    let n = ws.len();
    let mut i: usize = 0;
    while i < n
        invariant
            n == ws@.len(),
            i <= n,
            r@ == words_to_bytes(ws@.take(i as int)),
        decreases n - i,
    {
        let w = ws[i];
        let ghost before = r@;
        r.push((w & 0xff) as u8);
        r.push(((w >> 8) & 0xff) as u8);
        r.push(((w >> 16) & 0xff) as u8);
        r.push(((w >> 24) & 0xff) as u8);
        proof {
            assert(w == w >> 0u32) by (bit_vector);
            assert(r@ =~= words_to_bytes(ws@.take(i + 1))) by {
                assert forall|j: int| 0 <= j < r@.len() implies r@[j] == words_to_bytes(ws@.take(i + 1))[j] by {
                    if j < 4 * i {
                        assert(r@[j] == before[j]);
                    }
                }
            }
        }
        i = i + 1;
    }
    proof {
        assert(ws@.take(n as int) =~= ws@);
    }
    r
}

/// Reads exactly `count` words from groups of four little-endian bytes.
pub fn decode_words(bs: &Vec<u8>, count: usize) -> (r: Result<Vec<u32>, CodecError>)
    ensures
        words_result_view(r) == (if bs@.len() == 4 * count {
            Ok::<Seq<u32>, CodecError>(bytes_to_words(bs@))
        } else {
            Err(CodecError::LengthMismatch {
                expected: if count <= usize::MAX / 4 { (4 * count) as usize } else { usize::MAX },
                actual: bs@.len() as usize,
            })
        }),
{
    let expected: usize = if count <= usize::MAX / 4 { 4 * count } else { usize::MAX };
    if bs.len() != expected || count > usize::MAX / 4 {
        return Err(CodecError::LengthMismatch { expected, actual: bs.len() });
    }
    let mut r: Vec<u32> = Vec::new();
    let mut i: usize = 0;
    while i < count
        invariant
            bs@.len() == 4 * count,
            count <= usize::MAX / 4,
            i <= count,
            r@ =~= bytes_to_words(bs@).take(i as int),
        decreases count - i,
    {
        let w = (bs[4 * i] as u32) | ((bs[4 * i + 1] as u32) << 8) | ((bs[4 * i + 2] as u32) << 16)
            | ((bs[4 * i + 3] as u32) << 24);
        r.push(w);
        i = i + 1;
    }
    proof {
        assert(bytes_to_words(bs@).take(count as int) =~= bytes_to_words(bs@));
    }
    Ok(r)
}

/// Row-major copy of the cells of a tensor whose rows have `SERIES1_ITEM_SIZE` cells.
pub fn flatten_tensor(t: &Vec<Vec<u32>>) -> (r: Vec<u32>)
    requires
        has_row_shape(t.deep_view(), t@.len() as int),
    ensures
        r@ == flatten_rows(t.deep_view()),
{
    let mut r: Vec<u32> = Vec::new();
    let rows = t.len();
    let mut i: usize = 0;
    while i < rows
        invariant
            rows == t@.len(),
            has_row_shape(t.deep_view(), rows as int),
            i <= rows,
            r@ =~= flatten_rows(t.deep_view().take(i as int)),
        decreases rows - i,
    {
        let row = &t[i];
        assert(row@ == t.deep_view()[i as int]);
        let mut j: usize = 0;
        while j < SERIES1_ITEM_SIZE
            invariant
                rows == t@.len(),
                has_row_shape(t.deep_view(), rows as int),
                i < rows,
                row@ == t.deep_view()[i as int],
                j <= SERIES1_ITEM_SIZE,
                r@.len() == i * SERIES1_ITEM_SIZE + j,
                forall|k: int| 0 <= k < i * SERIES1_ITEM_SIZE ==> r@[k] == #[trigger] flatten_rows(t.deep_view().take(i as int))[k],
                forall|k: int| 0 <= k < j ==> r@[i * SERIES1_ITEM_SIZE + k] == #[trigger] row@[k],
            decreases SERIES1_ITEM_SIZE - j,
        {
            r.push(row[j]);
            j = j + 1;
        }
        proof {
            let f = flatten_rows(t.deep_view().take(i + 1));
            assert forall|k: int| 0 <= k < r@.len() implies r@[k] == f[k] by {
                if k < i * SERIES1_ITEM_SIZE {
                    assert(r@[k] == flatten_rows(t.deep_view().take(i as int))[k]);
                } else {
                    assert(r@[i * SERIES1_ITEM_SIZE + (k - i * SERIES1_ITEM_SIZE)] == row@[k - i * SERIES1_ITEM_SIZE]);
                }
            }
        }
        i = i + 1;
    }
    proof {
        assert(t.deep_view().take(rows as int) =~= t.deep_view());
    }
    r
}

/// Cuts a flat sequence of cells into rows of `SERIES1_ITEM_SIZE` cells.
pub fn unflatten_tensor(flat: &Vec<u32>) -> (r: Vec<Vec<u32>>)
    requires
        flat@.len() % (SERIES1_ITEM_SIZE as nat) == 0,
    ensures
        r.deep_view() == unflatten_rows(flat@),
        has_row_shape(r.deep_view(), (flat@.len() / (SERIES1_ITEM_SIZE as nat)) as int),
{
    let n = flat.len();
    let rows = n / SERIES1_ITEM_SIZE;
    proof {
        vstd::arithmetic::div_mod::lemma_fundamental_div_mod(n as int, SERIES1_ITEM_SIZE as int);
    }
    let ghost u = unflatten_rows(flat@);
    let mut r: Vec<Vec<u32>> = Vec::new();
    let mut i: usize = 0;
    while i < rows
        invariant
            n == flat@.len(),
            rows == u.len(),
            n == rows * SERIES1_ITEM_SIZE,
            u == unflatten_rows(flat@),
            i <= rows,
            r@.len() == i,
            forall|k: int| 0 <= k < i ==> (#[trigger] r@[k])@ == u[k],
        decreases rows - i,
    {
        let mut row: Vec<u32> = Vec::new();
        let mut j: usize = 0;
        while j < SERIES1_ITEM_SIZE
            invariant
                n == flat@.len(),
                n == rows * SERIES1_ITEM_SIZE,
                i < rows,
                j <= SERIES1_ITEM_SIZE,
                row@ =~= flat@.subrange(i * SERIES1_ITEM_SIZE, i * SERIES1_ITEM_SIZE + j),
            decreases SERIES1_ITEM_SIZE - j,
        {
            proof {
                assert(i * SERIES1_ITEM_SIZE + j < rows * SERIES1_ITEM_SIZE) by (nonlinear_arith)
                    requires i < rows, j < SERIES1_ITEM_SIZE;
            }
            row.push(flat[i * SERIES1_ITEM_SIZE + j]);
            j = j + 1;
        }
        r.push(row);
        i = i + 1;
    }
    proof {
        assert forall|k: int| 0 <= k < rows implies #[trigger] r.deep_view()[k] == u[k] by {
            assert(r@[k].deep_view() =~= r@[k]@);
        }
        assert(r.deep_view() =~= u);
    }
    r
}

/// Number of cells in the model input tensor.
pub const INPUT_CELLS: usize = SERIES1_SIZE * SERIES1_ITEM_SIZE;

/// What decoding a model input tensor from `bs` gives.
pub open spec fn decoded_tensor(bs: Seq<u8>) -> Result<Seq<Seq<u32>>, CodecError> {
    if bs.len() == 4 * INPUT_CELLS {
        Ok(unflatten_rows(bytes_to_words(bs)))
    } else {
        Err(CodecError::LengthMismatch { expected: (4 * INPUT_CELLS) as usize, actual: bs.len() as usize })
    }
}

/// What decoding a model output vector from `bs` gives.
pub open spec fn decoded_output(bs: Seq<u8>) -> Result<Seq<u32>, CodecError> {
    if bs.len() == 4 * MODEL_OUTPUT_WIDTH {
        Ok(bytes_to_words(bs))
    } else {
        Err(CodecError::LengthMismatch { expected: (4 * MODEL_OUTPUT_WIDTH) as usize, actual: bs.len() as usize })
    }
}

/// The deep view of a decoding result.
pub open spec fn tensor_result_view(r: Result<Vec<Vec<u32>>, CodecError>) -> Result<Seq<Seq<u32>>, CodecError> {
    match r {
        Ok(t) => Ok(t.deep_view()),
        Err(e) => Err(e),
    }
}

pub open spec fn words_result_view(r: Result<Vec<u32>, CodecError>) -> Result<Seq<u32>, CodecError> {
    match r {
        Ok(v) => Ok(v@),
        Err(e) => Err(e),
    }
}

/// Writes the model input tensor row by row, each cell as 4 little-endian bytes.
pub fn encode_tensor(t: &Vec<Vec<u32>>) -> (r: Vec<u8>)
    requires
        is_input_shape(t.deep_view()),
    ensures
        r@ == words_to_bytes(flatten_rows(t.deep_view())),
{
    let flat = flatten_tensor(t);
    encode_words(&flat)
}

/// Reads the model input tensor back; fails unless `bs` holds exactly its bytes.
pub fn decode_tensor(bs: &Vec<u8>) -> (r: Result<Vec<Vec<u32>>, CodecError>)
    ensures
        tensor_result_view(r) == decoded_tensor(bs@),
{
    match decode_words(bs, INPUT_CELLS) {
        Ok(flat) => {
            let t = unflatten_tensor(&flat);
            Ok(t)
        },
        Err(e) => Err(e),
    }
}

/// Writes the model output vector, each value as 4 little-endian bytes.
pub fn encode_output(v: &Vec<u32>) -> (r: Vec<u8>)
    ensures
        r@ == words_to_bytes(v@),
{
    encode_words(v)
}

/// Reads the model output vector back; fails unless `bs` holds exactly its bytes.
pub fn decode_output(bs: &Vec<u8>) -> (r: Result<Vec<u32>, CodecError>)
    ensures
        words_result_view(r) == decoded_output(bs@),
{
    decode_words(bs, MODEL_OUTPUT_WIDTH)
}

/// Decoding an encoded model input tensor gives the tensor back.
pub proof fn lemma_tensor_round_trip(t: Seq<Seq<u32>>)
    requires
        is_input_shape(t),
    ensures
        decoded_tensor(words_to_bytes(flatten_rows(t))) == Ok::<Seq<Seq<u32>>, CodecError>(t),
{
    let flat = flatten_rows(t);
    lemma_words_round_trip(flat);
    let u = unflatten_rows(flat);
    assert forall|i: int| 0 <= i < t.len() implies #[trigger] u[i] == t[i] by {
        assert(t[i].len() == SERIES1_ITEM_SIZE);
        assert forall|j: int| 0 <= j < SERIES1_ITEM_SIZE implies #[trigger] u[i][j] == t[i][j] by {
            let k = i * SERIES1_ITEM_SIZE + j;
            assert(k / (SERIES1_ITEM_SIZE as int) == i && k % (SERIES1_ITEM_SIZE as int) == j);
        }
        assert(u[i] =~= t[i]);
    }
    assert(u =~= t);
}

/// Decoding an encoded model output vector gives the vector back.
pub proof fn lemma_output_round_trip(v: Seq<u32>)
    requires
        v.len() == MODEL_OUTPUT_WIDTH,
    ensures
        decoded_output(words_to_bytes(v)) == Ok::<Seq<u32>, CodecError>(v),
{
    lemma_words_round_trip(v);
}

/// Each event's time before the newest event of the window, in milliseconds.
pub open spec fn time_deltas_spec(events: Seq<QuoteEvent>) -> Seq<int> {
    Seq::new(events.len(), |i: int| events.last().biddate - events[i].biddate)
}

/// Time of each event before the window's newest event, which is the encoding's base;
/// the newest event gets 0. `None` for an empty window, or where a difference does not
/// fit in an `i64`.
pub fn time_deltas(events: &VecDeque<QuoteEvent>) -> (r: Option<Vec<i64>>)
    ensures
        r is Some <==> events@.len() > 0 && forall|i: int| 0 <= i < events@.len()
            ==> i64::MIN <= #[trigger] time_deltas_spec(events@)[i] <= i64::MAX,
        r matches Some(v) ==> v@.len() == events@.len() && forall|i: int| 0 <= i < v@.len()
            ==> v@[i] == #[trigger] time_deltas_spec(events@)[i],
{
    let n = events.len();
    if n == 0 {
        return None;
    }
    let base_time = events[n - 1].biddate;
    let mut r: Vec<i64> = Vec::new();
    let mut i: usize = 0;
    while i < n
        invariant
            n == events@.len(),
            n > 0,
            base_time == events@.last().biddate,
            i <= n,
            r@.len() == i,
            forall|k: int| 0 <= k < i ==> r@[k] == #[trigger] time_deltas_spec(events@)[k],
        decreases n - i,
    {
        let d = (base_time as i128) - (events[i].biddate as i128);
        if d < i64::MIN as i128 || d > i64::MAX as i128 {
            assert(!(i64::MIN <= time_deltas_spec(events@)[i as int] <= i64::MAX));
            return None;
        }
        r.push(d as i64);
        i = i + 1;
    }
    Some(r)
}

/// The bit pattern of +0.0 or -0.0.
pub open spec fn is_zero_value(w: u32) -> bool {
    w & 0x7fff_ffff == 0
}

/// Number of zero values among `cells`.
pub open spec fn zero_count(cells: Seq<u32>) -> nat
    decreases cells.len(),
{
    if cells.len() == 0 {
        0
    } else {
        zero_count(cells.drop_last()) + (if is_zero_value(cells.last()) { 1nat } else { 0nat })
    }
}

/// Counts the zero values among the cells of a flattened tensor.
pub fn zero_cell_count(cells: &Vec<u32>) -> (r: usize)
    ensures
        r == zero_count(cells@),
{
    let n = cells.len();
    let mut count: usize = 0;
    let mut i: usize = 0;
    while i < n
        invariant
            n == cells@.len(),
            i <= n,
            count == zero_count(cells@.take(i as int)),
            count <= i,
        decreases n - i,
    {
        proof {
            assert(cells@.take(i + 1).drop_last() =~= cells@.take(i as int));
        }
        if cells[i] & 0x7fff_ffff == 0 {
            count = count + 1;
        }
        i = i + 1;
    }
    proof {
        assert(cells@.take(n as int) =~= cells@);
    }
    count
}

/// A well-formed window has few exact zeros: a tensor with at least two per event
/// signals bad input, such as every price equal to the base.
pub fn input_looks_degenerate(cells: &Vec<u32>, num_events: usize) -> (r: bool)
    ensures
        r == (zero_count(cells@) >= 2 * num_events),
{
    let zeros = zero_cell_count(cells);
    zeros as u128 >= 2 * (num_events as u128)
}

} // verus!
