use crate::cursor::{i16_at, i32_at, take, text_at, ByteCursor, ReadState};
use crate::error::VadError;
use crate::time::{timestamp_after, timestamp_of, VALID_TIME_ORIGIN};
use vstd::prelude::*;

verus! {

/// The product code of a velocity-azimuth-display wind profile.
pub const VWP_PRODUCT_CODE: i16 = 48;

/// The id that opens a symbology block.
pub const SYMBOLOGY_BLOCK_ID: i16 = 1;

/// The id that opens a tabular block.
pub const TABULAR_BLOCK_ID: i16 = 3;

/// The line length that closes a page.
pub const END_OF_PAGE: i16 = -1;

/// What the description block says of interest to a wind profile.
#[derive(Debug, Clone, Copy, PartialEq, Eq, Structural)]
pub struct DescriptionBlock {
    /// Station latitude in thousandths of a degree.
    pub latitude: i32,
    /// Station longitude in thousandths of a degree.
    pub longitude: i32,
    /// When the scan is valid, in seconds since the Unix epoch.
    pub valid_time: i64,
    /// Offset of the symbology block; 0 when there is none.
    pub symbology_offset: i32,
    /// Offset of the graphic block; 0 when there is none.
    pub graphic_offset: i32,
    /// Offset of the tabular block; 0 when there is none.
    pub tabular_offset: i32,
}

impl DescriptionBlock {
    /// Whether a tabular block follows.
    pub open spec fn spec_has_tabular(&self) -> bool {
        self.tabular_offset > 0
    }

    /// Whether a tabular block follows.
    #[verifier::when_used_as_spec(spec_has_tabular)]
    pub fn has_tabular(&self) -> (b: bool)
        ensures
            b == self.spec_has_tabular(),
    {
        self.tabular_offset > 0
    }
}

/// Where the cursor rests after a decoder gave up with `e`: at the read that did not
/// fit, or just past the value that was not the expected one.
pub open spec fn stopped_at(e: VadError) -> int {
    match e {
        VadError::TruncatedInput { offset, .. } => offset as int,
        VadError::ProductCodeMismatch { offset, .. } => offset + 2,
        VadError::SymbologyBlockMismatch { offset, .. } => offset + 2,
        VadError::TabularBlockMismatch { offset, .. } => offset + 2,
        VadError::FieldParseError { .. } => 0,
    }
}

/// What a decoder leaves behind: the bytes are untouched; on success the cursor stands
/// where `expected` ends and the value is the one `expected` holds, on failure the
/// error is that of `expected` and the cursor stands where `stopped_at` says.
pub open spec fn decoded<T>(
    before: ByteCursor,
    after: ByteCursor,
    expected: Result<(T, int), VadError>,
    got: Result<T, VadError>,
) -> bool {
    &&& after.bytes() == before.bytes()
    &&& 0 <= after.offset() <= after.bytes().len() <= usize::MAX
    &&& match got {
        Ok(v) => expected == Ok::<(T, int), VadError>((v, after.offset())),
        Err(e) => expected == Err::<(T, int), VadError>(e) && after.offset() == stopped_at(e),
    }
}

/// What a decoder that yields no value leaves behind: as `decoded`, with the end of
/// `expected` as the only thing to meet.
pub open spec fn passed(
    before: ByteCursor,
    after: ByteCursor,
    expected: ReadState,
    got: Result<(), VadError>,
) -> bool {
    &&& after.bytes() == before.bytes()
    &&& 0 <= after.offset() <= after.bytes().len() <= usize::MAX
    &&& match got {
        Ok(()) => expected == Ok::<int, VadError>(after.offset()),
        Err(e) => expected == Err::<int, VadError>(e) && after.offset() == stopped_at(e),
    }
}

/// The lines of a page, each by its characters.
pub open spec fn lines_view(r: Result<Vec<String>, VadError>) -> Result<Seq<Seq<char>>, VadError> {
    match r {
        Ok(lines) => Ok(lines.deep_view()),
        Err(e) => Err(e),
    }
}

/// The pages of a block, each line by its characters.
pub open spec fn pages_view(r: Result<Vec<Vec<String>>, VadError>) -> Result<
    Seq<Seq<Seq<char>>>,
    VadError,
> {
    match r {
        Ok(pages) => Ok(pages.deep_view()),
        Err(e) => Err(e),
    }
}

/// The message header, all of it passed over: a 30-byte text, message date, message
/// code, message time, message length, source id, destination id, block count.
pub open spec fn spec_read_headers(len: int, p: int) -> ReadState {
    let r = take(len, Ok(p), 30);
    let r = take(len, r, 2);
    let r = take(len, r, 2);
    let r = take(len, r, 4);
    let r = take(len, r, 4);
    let r = take(len, r, 2);
    let r = take(len, r, 2);
    take(len, r, 2)
}

/// The start of a description block through its product code: separator, latitude,
/// longitude, radar elevation, product code.
pub open spec fn desc_head(len: int, p: int) -> ReadState {
    let r = take(len, Ok(p), 2);
    let r = take(len, r, 4);
    let r = take(len, r, 4);
    let r = take(len, r, 2);
    take(len, r, 2)
}

/// The fields that a description block and its copy in the tabular block share after
/// the product code: operation mode, coverage pattern, two sequence numbers, scan date
/// and time, product date and time, 27 reserved words, version, spot blank, and the
/// offsets of the symbology, graphic and tabular blocks.
pub open spec fn desc_tail(len: int, at: ReadState) -> ReadState {
    let r = take(len, at, 2);
    let r = take(len, r, 2);
    let r = take(len, r, 2);
    let r = take(len, r, 2);
    let r = take(len, r, 2);
    let r = take(len, r, 4);
    let r = take(len, r, 2);
    let r = take(len, r, 4);
    let r = take(len, r, 54);
    let r = take(len, r, 1);
    let r = take(len, r, 1);
    let r = take(len, r, 4);
    let r = take(len, r, 4);
    take(len, r, 4)
}

/// What is kept of the fields that follow a product code.
#[derive(Debug, Clone, Copy, PartialEq, Eq, Structural)]
pub struct TailFields {
    pub scan_date: i16,
    pub scan_time: i32,
    pub symbology_offset: i32,
    pub graphic_offset: i32,
    pub tabular_offset: i32,
}

/// The values kept of the fields that follow a product code, where those fields
/// start at offset `t`.
pub open spec fn tail_values(bytes: Seq<u8>, t: int) -> TailFields {
    TailFields {
        scan_date: i16_at(bytes, t + 8),
        scan_time: i32_at(bytes, t + 10),
        symbology_offset: i32_at(bytes, t + 76),
        graphic_offset: i32_at(bytes, t + 80),
        tabular_offset: i32_at(bytes, t + 84),
    }
}

/// The fields that follow a product code, from offset `t`, with the values kept of
/// them.
pub open spec fn spec_read_desc_tail(bytes: Seq<u8>, t: int) -> Result<(TailFields, int), VadError> {
    match desc_tail(bytes.len() as int, Ok(t)) {
        Ok(end) => Ok((tail_values(bytes, t), end)),
        Err(e) => Err(e),
    }
}

/// The values of a description block that starts at offset `p`. The valid time is
/// the scan date, in days, and the scan time, in seconds, counted from the origin.
pub open spec fn desc_values(bytes: Seq<u8>, p: int) -> DescriptionBlock {
    let tail = tail_values(bytes, p + 14);
    DescriptionBlock {
        latitude: i32_at(bytes, p + 2),
        longitude: i32_at(bytes, p + 6),
        valid_time: timestamp_of(
            VALID_TIME_ORIGIN as int,
            tail.scan_date as int,
            tail.scan_time as int,
        ) as i64,
        symbology_offset: tail.symbology_offset,
        graphic_offset: tail.graphic_offset,
        tabular_offset: tail.tabular_offset,
    }
}

/// The number of bytes that a payload count of `n` bytes asks for, read as whole
/// 16-bit words. A negative count is taken as the machine reads it, which is more
/// than any stream holds.
pub open spec fn payload_bytes(n: i32) -> int {
    2 * ((n as usize) / 2)
}

/// A symbology block at offset `p`: separator, block id (which must be 1), block
/// length, layer count, layer separator, payload byte count, then the payload.
pub open spec fn spec_read_symbology(bytes: Seq<u8>, p: int) -> ReadState {
    let len = bytes.len() as int;
    match take(len, take(len, Ok(p), 2), 2) {
        Err(e) => Err(e),
        Ok(q) => {
            let id = i16_at(bytes, p + 2);
            if id != SYMBOLOGY_BLOCK_ID {
                Err(VadError::SymbologyBlockMismatch { offset: (p + 2) as usize, found: id })
            } else {
                let r = take(len, Ok(q), 4);
                let r = take(len, r, 2);
                let r = take(len, r, 2);
                match take(len, r, 4) {
                    Err(e) => Err(e),
                    Ok(s) => {
                        let count = i32_at(bytes, p + 12);
                        if count < 0 {
                            Err(
                                VadError::TruncatedInput {
                                    offset: s as usize,
                                    needed: payload_bytes(count) as usize,
                                },
                            )
                        } else {
                            take(len, Ok(s), payload_bytes(count))
                        }
                    },
                }
            }
        },
    }
}

/// A description block at offset `p`, with the symbology block behind it where the
/// block announces one. A product code other than 48 ends the decoding on the spot.
pub open spec fn spec_read_desc_block(bytes: Seq<u8>, p: int) -> Result<
    (DescriptionBlock, int),
    VadError,
> {
    let len = bytes.len() as int;
    match desc_head(len, p) {
        Err(e) => Err(e),
        Ok(q) => {
            let code = i16_at(bytes, p + 12);
            if code != VWP_PRODUCT_CODE {
                Err(VadError::ProductCodeMismatch { offset: (p + 12) as usize, found: code })
            } else {
                match desc_tail(len, Ok(q)) {
                    Err(e) => Err(e),
                    Ok(s) => {
                        let block = desc_values(bytes, p);
                        if block.symbology_offset != 0 {
                            match spec_read_symbology(bytes, s) {
                                Err(e) => Err(e),
                                Ok(t) => Ok((block, t)),
                            }
                        } else {
                            Ok((block, s))
                        }
                    },
                }
            }
        },
    }
}

/// One page at offset `p`: lines, each a 16-bit length and that many bytes of text, up
/// to the length -1 that closes the page. A length of 0 is an empty line. Any other
/// negative length is taken as the machine reads it, which is more than any stream
/// holds.
pub open spec fn spec_read_page(bytes: Seq<u8>, p: int) -> Result<(Seq<Seq<char>>, int), VadError>
    decreases bytes.len() - p,
{
    let len = bytes.len() as int;
    match take(len, Ok(p), 2) {
        Err(e) => Err(e),
        Ok(q) => {
            let n = i16_at(bytes, p);
            if n == END_OF_PAGE {
                Ok((Seq::empty(), q))
            } else if n < 0 {
                Err(VadError::TruncatedInput { offset: q as usize, needed: n as usize })
            } else {
                match take(len, Ok(q), n as int) {
                    Err(e) => Err(e),
                    Ok(s) => match spec_read_page(bytes, s) {
                        Err(e) => Err(e),
                        Ok((rest, end)) => Ok((seq![text_at(bytes, q, n as int)] + rest, end)),
                    },
                }
            }
        },
    }
}

/// `count` pages, one behind the other, from offset `p`.
pub open spec fn spec_read_pages(bytes: Seq<u8>, p: int, count: nat) -> Result<
    (Seq<Seq<Seq<char>>>, int),
    VadError,
>
    decreases count,
{
    if count == 0 {
        Ok((Seq::empty(), p))
    } else {
        match spec_read_page(bytes, p) {
            Err(e) => Err(e),
            Ok((page, q)) => match spec_read_pages(bytes, q, (count - 1) as nat) {
                Err(e) => Err(e),
                Ok((rest, end)) => Ok((seq![page] + rest, end)),
            },
        }
    }
}

/// What stands between the id of a tabular block and its first page: block size, 30
/// bytes of no known meaning, a second product code, the fields that follow the
/// product code in a description block, a separator, and the page count.
pub open spec fn tabular_preamble(len: int, at: ReadState) -> ReadState {
    let r = take(len, at, 4);
    let r = take(len, r, 30);
    let r = take(len, r, 2);
    let r = desc_tail(len, r);
    let r = take(len, r, 2);
    take(len, r, 2)
}

/// A tabular block at offset `p`: separator, block id (which must be 3), the preamble,
/// then as many pages as the page count says; none where the count is not positive.
pub open spec fn spec_read_tabular(bytes: Seq<u8>, p: int) -> Result<
    (Seq<Seq<Seq<char>>>, int),
    VadError,
> {
    let len = bytes.len() as int;
    match take(len, take(len, Ok(p), 2), 2) {
        Err(e) => Err(e),
        Ok(q) => {
            let id = i16_at(bytes, p + 2);
            if id != TABULAR_BLOCK_ID {
                Err(VadError::TabularBlockMismatch { offset: (p + 2) as usize, found: id })
            } else {
                match tabular_preamble(len, Ok(q)) {
                    Err(e) => Err(e),
                    Ok(s) => {
                        let count = i16_at(bytes, s - 2);
                        spec_read_pages(bytes, s, if count > 0 { count as nat } else { 0 })
                    },
                }
            }
        },
    }
}

/// `rest` with the items of `done` put in front of what it decoded.
pub open spec fn after_items<T>(done: Seq<T>, rest: Result<(Seq<T>, int), VadError>) -> Result<
    (Seq<T>, int),
    VadError,
> {
    match rest {
        Ok((more, end)) => Ok((done + more, end)),
        Err(e) => Err(e),
    }
}

/// Passes over the message header.
pub fn read_headers(cur: &mut ByteCursor) -> (r: Result<(), VadError>)
    ensures
        passed(
            *old(cur),
            *final(cur),
            spec_read_headers(old(cur).bytes().len() as int, old(cur).offset()),
            r,
        ),
{
    let _wmo_header = cur.read_bytes(30)?;
    let _message_date = cur.read_i16()?;
    let _message_code = cur.read_i16()?;
    let _message_time = cur.read_i32()?;
    let _message_length = cur.read_i32()?;
    let _source_id = cur.read_i16()?;
    let _dest_id = cur.read_i16()?;
    let _num_blocks = cur.read_i16()?;
    Ok(())
}

/// Reads the fields that follow a product code.
fn read_desc_tail(cur: &mut ByteCursor) -> (r: Result<TailFields, VadError>)
    ensures
        decoded(
            *old(cur),
            *final(cur),
            spec_read_desc_tail(old(cur).bytes(), old(cur).offset()),
            r,
        ),
{
    let _operation_mode = cur.read_i16()?;
    let _vcp = cur.read_i16()?;
    let _req_sequence_number = cur.read_i16()?;
    let _vol_sequence_number = cur.read_i16()?;
    let scan_date = cur.read_i16()?;
    let scan_time = cur.read_i32()?;
    let _product_date = cur.read_i16()?;
    let _product_time = cur.read_i32()?;
    let _reserved = cur.read_i16_array(27)?;
    let _version = cur.read_i8()?;
    let _spot_blank = cur.read_i8()?;
    let symbology_offset = cur.read_i32()?;
    let graphic_offset = cur.read_i32()?;
    let tabular_offset = cur.read_i32()?;
    Ok(TailFields { scan_date, scan_time, symbology_offset, graphic_offset, tabular_offset })
}

/// Reads a symbology block and passes over its payload.
pub fn read_symbology(cur: &mut ByteCursor) -> (r: Result<(), VadError>)
    ensures
        passed(
            *old(cur),
            *final(cur),
            spec_read_symbology(old(cur).bytes(), old(cur).offset()),
            r,
        ),
{
    let _separator = cur.read_i16()?;
    let id_offset = cur.position();
    let block_id = cur.read_i16()?;
    if block_id != SYMBOLOGY_BLOCK_ID {
        return Err(VadError::SymbologyBlockMismatch { offset: id_offset, found: block_id });
    }
    let _block_length = cur.read_i32()?;
    let _num_layers = cur.read_i16()?;
    let _layer_sep = cur.read_i16()?;
    let layer_num_bytes = cur.read_i32()?;
    let words = (#[verifier::truncate] (layer_num_bytes as usize)) / 2;
    if layer_num_bytes < 0 {
        return Err(VadError::TruncatedInput { offset: cur.position(), needed: 2 * words });
    }
    let _block_data = cur.read_i16_array(words)?;
    Ok(())
}

/// Reads a description block, and the symbology block behind it where there is one.
///
/// A graphic block is never passed over: where the block announces one, whatever is
/// read next starts inside it.
pub fn read_desc_block(cur: &mut ByteCursor) -> (r: Result<DescriptionBlock, VadError>)
    ensures
        decoded(
            *old(cur),
            *final(cur),
            spec_read_desc_block(old(cur).bytes(), old(cur).offset()),
            r,
        ),
{
    let _separator = cur.read_i16()?;
    let latitude = cur.read_i32()?;
    let longitude = cur.read_i32()?;
    let _radar_elev = cur.read_i16()?;
    let code_offset = cur.position();
    let product_code = cur.read_i16()?;
    if product_code != VWP_PRODUCT_CODE {
        return Err(VadError::ProductCodeMismatch { offset: code_offset, found: product_code });
    }
    let tail = read_desc_tail(cur)?;
    let block = DescriptionBlock {
        latitude,
        longitude,
        valid_time: timestamp_after(VALID_TIME_ORIGIN, tail.scan_date, tail.scan_time),
        symbology_offset: tail.symbology_offset,
        graphic_offset: tail.graphic_offset,
        tabular_offset: tail.tabular_offset,
    };
    if block.symbology_offset != 0 {
        read_symbology(cur)?;
    }
    Ok(block)
}

/// Reads the lines of one page, up to and including the length that closes it.
#[verifier::loop_isolation(false)]
pub fn read_page(cur: &mut ByteCursor) -> (r: Result<Vec<String>, VadError>)
    ensures
        decoded(
            *old(cur),
            *final(cur),
            spec_read_page(old(cur).bytes(), old(cur).offset()),
            lines_view(r),
        ),
{
    let ghost bytes = cur.bytes();
    let ghost start = cur.offset();
    let mut lines: Vec<String> = Vec::new();
    assert(lines.deep_view() =~= Seq::<Seq<char>>::empty());
    assert(Seq::<Seq<char>>::empty() + Seq::<Seq<char>>::empty() =~= Seq::<Seq<char>>::empty());
    loop
        invariant
            cur.bytes() == bytes,
            spec_read_page(bytes, start) == after_items(
                lines.deep_view(),
                spec_read_page(bytes, cur.offset()),
            ),
        decreases bytes.len() - cur.offset(),
    {
        let ghost done = lines.deep_view();
        let num_chars = match cur.read_i16() {
            Ok(n) => n,
            Err(e) => {
                return Err(e);
            },
        };
        if num_chars == END_OF_PAGE {
            assert(done + Seq::<Seq<char>>::empty() =~= done);
            return Ok(lines);
        }
        let wanted = #[verifier::truncate] (num_chars as usize);
        if num_chars < 0 {
            return Err(VadError::TruncatedInput { offset: cur.position(), needed: wanted });
        }
        let line = match cur.read_string(wanted) {
            Ok(s) => s,
            Err(e) => {
                return Err(e);
            },
        };
        let ghost text = line@;
        lines.push(line);
        proof {
            assert(lines.deep_view() =~= done.push(text));
            match spec_read_page(bytes, cur.offset()) {
                Ok((rest, end)) => {
                    assert(done + (seq![text] + rest) =~= done.push(text) + rest);
                },
                Err(_) => {},
            }
        }
    }
}

/// Reads a tabular block: its preamble, then its pages, each a list of text lines.
#[verifier::loop_isolation(false)]
pub fn read_tabular(cur: &mut ByteCursor) -> (r: Result<Vec<Vec<String>>, VadError>)
    ensures
        decoded(
            *old(cur),
            *final(cur),
            spec_read_tabular(old(cur).bytes(), old(cur).offset()),
            pages_view(r),
        ),
{
    let ghost bytes = cur.bytes();
    let _separator = cur.read_i16()?;
    let id_offset = cur.position();
    let block_id = cur.read_i16()?;
    if block_id != TABULAR_BLOCK_ID {
        return Err(VadError::TabularBlockMismatch { offset: id_offset, found: block_id });
    }
    let _block_size = cur.read_i32()?;
    let _unknown = cur.read_bytes(30)?;
    let _product_code = cur.read_i16()?;
    let _copy = read_desc_tail(cur)?;
    let _separator = cur.read_i16()?;
    let num_pages = cur.read_i16()?;

    let ghost first = cur.offset();
    let ghost total: nat = if num_pages > 0 {
        num_pages as nat
    } else {
        0
    };
    let mut pages: Vec<Vec<String>> = Vec::new();
    assert(pages.deep_view() =~= Seq::<Seq<Seq<char>>>::empty());
    let mut i: i16 = 0;
    proof {
        match spec_read_pages(bytes, first, total) {
            Ok((rest, end)) => {
                assert(Seq::<Seq<Seq<char>>>::empty() + rest =~= rest);
            },
            Err(_) => {},
        }
    }
    while i < num_pages
        invariant
            cur.bytes() == bytes,
            0 <= cur.offset() <= bytes.len() <= usize::MAX,
            0 <= i,
            i <= num_pages || num_pages < 0,
            total == if num_pages > 0 {
                num_pages as nat
            } else {
                0
            },
            spec_read_pages(bytes, first, total) == after_items(
                pages.deep_view(),
                spec_read_pages(bytes, cur.offset(), (total - i) as nat),
            ),
        decreases num_pages - i,
    {
        let ghost done = pages.deep_view();
        let page = match read_page(cur) {
            Ok(p) => p,
            Err(e) => {
                return Err(e);
            },
        };
        let ghost lines = page.deep_view();
        pages.push(page);
        i += 1;
        proof {
            assert(pages.deep_view() =~= done.push(lines));
            match spec_read_pages(bytes, cur.offset(), (total - i) as nat) {
                Ok((rest, end)) => {
                    assert(done + (seq![lines] + rest) =~= done.push(lines) + rest);
                },
                Err(_) => {},
            }
        }
    }
    proof {
        assert(pages.deep_view() + Seq::<Seq<Seq<char>>>::empty() =~= pages.deep_view());
    }
    Ok(pages)
}

} // verus!
