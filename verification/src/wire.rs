//! The wire format of a representation: a flat buffer of little-endian
//! half-precision values, row-major, without header or padding.
use crate::bundle::{cell_count, Table, TableView};
use vstd::prelude::*;

verus! {

/// Why an ingestion failed.
#[derive(Debug, Clone, PartialEq, Eq)]
pub enum IngestError {
    /// The payload could not be retrieved; carries the transport's account.
    Transport(String),
    /// The payload is no sequence of two-byte values.
    Malformed(String),
    /// The payload holds `actual` values where the declared grid and width
    /// call for `expected`.
    ShapeMismatch { expected: u128, actual: usize },
}

/// The message of [`IngestError::Malformed`] for a payload of odd length.
pub open spec fn odd_length_message() -> Seq<char> {
    "odd byte length"@
}

/// The `i`-th value of a payload: its bytes `2i` and `2i + 1`, low byte first.
pub open spec fn half_at(payload: Seq<u8>, i: int) -> u16 {
    (payload[2 * i] as int + 256 * (payload[2 * i + 1] as int)) as u16
}

/// The values of a payload of even length, in order.
pub open spec fn halves_of(payload: Seq<u8>) -> Seq<u16> {
    Seq::new((payload.len() / 2) as nat, |i: int| half_at(payload, i))
}

/// What decoding `payload` for a grid of edge `grid_side` and rows `width`
/// wide gives: a fault for an odd length, a fault for a value count other
/// than `grid_side * grid_side * width`, else the table of the values.
pub open spec fn decodes_to(
    payload: Seq<u8>,
    grid_side: nat,
    width: nat,
    outcome: Result<Table, IngestError>,
) -> bool {
    if payload.len() % 2 != 0 {
        outcome matches Err(IngestError::Malformed(message)) && message@ == odd_length_message()
    } else if payload.len() / 2 != cell_count(grid_side, width) {
        outcome == Err::<Table, IngestError>(
            IngestError::ShapeMismatch {
                expected: cell_count(grid_side, width) as u128,
                actual: (payload.len() / 2) as usize,
            },
        )
    } else {
        outcome matches Ok(table) && table@ == (TableView {
            rows: grid_side * grid_side,
            width: width,
            cells: halves_of(payload),
        }) && table@.wf()
    }
}

/// Reads a payload as little-endian two-byte values. There is no reading
/// exactly when the length is odd.
pub fn decode_halves(payload: &[u8]) -> (halves: Option<Vec<u16>>)
    ensures
        halves is Some <==> payload@.len() % 2 == 0,
        halves matches Some(v) ==> v@ == halves_of(payload@),
{
    let len = payload.len();
    if len % 2 != 0 {
        return None;
    }
    let count = len / 2;
    let mut halves: Vec<u16> = Vec::with_capacity(count);
    let mut i: usize = 0;
    while i < count
        invariant
            len == payload@.len(),
            len == 2 * count,
            i <= count,
            halves@.len() == i,
            forall|k: int| 0 <= k < i ==> halves@[k] == half_at(payload@, k),
        decreases count - i,
    {
        let low = payload[2 * i] as u16;
        let high = payload[2 * i + 1] as u16;
        halves.push(low + 256 * high);
        i += 1;
    }
    assert(halves@ =~= halves_of(payload@));
    Some(halves)
}

/// The number of values that a grid of `rows` positions with rows `width`
/// wide holds.
pub fn expected_values(rows: usize, width: usize) -> (count: u128)
    ensures
        count == rows * width,
{
    assert(rows * width <= u128::MAX) by (nonlinear_arith)
        requires
            0 <= rows <= 0xffff_ffff_ffff_ffff,
            0 <= width <= 0xffff_ffff_ffff_ffff,
    ;
    (rows as u128) * (width as u128)
}

/// Whether the positions of a grid of edge `grid_side` must be counted to
/// decode `payload`, and can be: a payload of odd length is refused before
/// its grid is looked at, one of even length wants a number of positions
/// that is a machine word.
pub open spec fn decodable(payload: Seq<u8>, grid_side: nat) -> bool {
    payload.len() % 2 == 0 ==> grid_side * grid_side <= usize::MAX
}

/// What taking a delivery gives: a transport failure is passed on with its
/// account, a payload is decoded.
pub open spec fn receives(
    fetched: Result<Vec<u8>, String>,
    grid_side: nat,
    width: nat,
    outcome: Result<Table, IngestError>,
) -> bool {
    match fetched {
        Err(account) => outcome == Err::<Table, IngestError>(IngestError::Transport(account)),
        Ok(payload) => decodes_to(payload@, grid_side, width, outcome),
    }
}

/// Whether a delivery can be taken: a transport failure always, a payload
/// where it is [`decodable`].
pub open spec fn receivable(fetched: Result<Vec<u8>, String>, grid_side: nat) -> bool {
    fetched matches Ok(payload) ==> decodable(payload@, grid_side)
}

/// A payload of odd length is malformed and a payload of even length with
/// another number of values than the grid and the width call for is a shape
/// mismatch, whatever else holds of the grid, the width and the payload; no
/// table comes of either.
pub proof fn lemma_faulty_payload_is_refused(
    payload: Seq<u8>,
    grid_side: nat,
    width: nat,
    outcome: Result<Table, IngestError>,
)
    requires
        decodes_to(payload, grid_side, width, outcome),
    ensures
        payload.len() % 2 == 1 ==> (outcome matches Err(IngestError::Malformed(message))
            && message@ == odd_length_message()),
        payload.len() % 2 == 0 && payload.len() / 2 != cell_count(grid_side, width) ==> (outcome
            == Err::<Table, IngestError>(
            IngestError::ShapeMismatch {
                expected: cell_count(grid_side, width) as u128,
                actual: (payload.len() / 2) as usize,
            },
        )),
        outcome is Ok <==> payload.len() % 2 == 0 && payload.len() / 2 == cell_count(
            grid_side,
            width,
        ),
{
}

/// Decodes a payload into the table of a grid of edge `grid_side` with rows
/// `width` wide. The positions of the grid have to be countable only for a
/// payload of even length: an odd length is reported whatever the grid.
pub fn decode_payload(payload: &[u8], grid_side: usize, width: usize) -> (outcome: Result<
    Table,
    IngestError,
>)
    requires
        decodable(payload@, grid_side as nat),
    ensures
        decodes_to(payload@, grid_side as nat, width as nat, outcome),
{
    let halves = match decode_halves(payload) {
        Some(halves) => halves,
        None => {
            return Err(IngestError::Malformed("odd byte length".to_owned()));
        },
    };
    let actual = halves.len();
    let rows = grid_side * grid_side;
    let expected = expected_values(rows, width);
    assert(cell_count(grid_side as nat, width as nat) == rows * width);
    match Table::new(grid_side, width, halves) {
        Some(table) => Ok(table),
        None => Err(IngestError::ShapeMismatch { expected, actual }),
    }
}

/// Takes what the transport delivered for a grid of edge `grid_side` with
/// rows `width` wide: a transport failure is passed on with its account, a
/// payload is decoded.
pub fn receive(fetched: Result<Vec<u8>, String>, grid_side: usize, width: usize) -> (outcome:
    Result<Table, IngestError>)
    requires
        receivable(fetched, grid_side as nat),
    ensures
        receives(fetched, grid_side as nat, width as nat, outcome),
{
    match fetched {
        Err(account) => Err(IngestError::Transport(account)),
        Ok(payload) => decode_payload(payload.as_slice(), grid_side, width),
    }
}

/// Takes a delivery wherever it can be taken. There is no outcome exactly
/// for a payload of even length with a grid whose number of positions is no
/// machine word; a transport failure and a payload of odd length are
/// reported whatever the grid.
pub fn try_receive(fetched: Result<Vec<u8>, String>, grid_side: usize, width: usize) -> (outcome:
    Option<Result<Table, IngestError>>)
    ensures
        outcome is Some <==> receivable(fetched, grid_side as nat),
        outcome matches Some(received) ==> receives(
            fetched,
            grid_side as nat,
            width as nat,
            received,
        ),
{
    let receivable = match &fetched {
        Ok(payload) => payload.len() % 2 != 0 || grid_side.checked_mul(grid_side).is_some(),
        Err(_) => true,
    };
    if receivable {
        Some(receive(fetched, grid_side, width))
    } else {
        None
    }
}

} // verus!
