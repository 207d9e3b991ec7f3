use crate::blocks::{
    read_desc_block, read_headers, read_tabular, spec_read_desc_block, spec_read_headers,
    spec_read_tabular, VWP_PRODUCT_CODE,
};
use crate::cursor::{i16_at, ByteCursor};
use crate::error::VadError;
use crate::text::{
    fields, is_float_literal, is_numeric, split_whitespace, starts_with, trimmed,
    trimmed_starts_with,
};
use vstd::prelude::*;

verus! {

/// The position of the wind direction among the fields of a data line.
pub const FIELD_WIND_DIR: usize = 4;

/// The position of the wind speed among the fields of a data line.
pub const FIELD_WIND_SPD: usize = 5;

/// The position of the slant range among the fields of a data line.
pub const FIELD_SLANT_RANGE: usize = 8;

/// The position of the elevation angle among the fields of a data line.
pub const FIELD_ELEV_ANGLE: usize = 9;

/// The number of lines at the head of a page that hold titles, not data.
pub const TITLE_LINES: usize = 3;

/// The text with which the first line of a page of wind data begins.
pub open spec fn vad_title() -> Seq<char> {
    "VAD Algorithm Output"@
}

/// The four numbers of one data line, as they are written.
#[derive(Debug, Clone, PartialEq, Eq)]
pub struct VadRow {
    /// Wind direction in degrees.
    pub wind_dir: String,
    /// Wind speed, in the unit the product gives it in.
    pub wind_spd: String,
    /// Slant range in nautical miles.
    pub slant_range: String,
    /// Elevation angle in degrees.
    pub elev_angle: String,
}

/// The mathematical content of a `VadRow`.
pub struct VadRowView {
    pub wind_dir: Seq<char>,
    pub wind_spd: Seq<char>,
    pub slant_range: Seq<char>,
    pub elev_angle: Seq<char>,
}

impl View for VadRow {
    type V = VadRowView;

    open spec fn view(&self) -> VadRowView {
        VadRowView {
            wind_dir: self.wind_dir@,
            wind_spd: self.wind_spd@,
            slant_range: self.slant_range@,
            elev_angle: self.elev_angle@,
        }
    }
}

/// The rows of `rows`, each by its content.
pub open spec fn rows_view(rows: Seq<VadRow>) -> Seq<VadRowView> {
    Seq::new(rows.len(), |i: int| rows[i]@)
}

/// Whether the field at position `k` is missing or is not a number.
pub open spec fn bad_field(f: Seq<Seq<char>>, k: int) -> bool {
    k >= f.len() || !is_float_literal(f[k])
}

/// The row that a data line gives, or the position of its first field, among the four
/// that are read, which is missing or is not a number.
pub open spec fn spec_row(line: Seq<char>) -> Result<VadRowView, int> {
    let f = fields(line);
    if bad_field(f, FIELD_WIND_DIR as int) {
        Err(FIELD_WIND_DIR as int)
    } else if bad_field(f, FIELD_WIND_SPD as int) {
        Err(FIELD_WIND_SPD as int)
    } else if bad_field(f, FIELD_SLANT_RANGE as int) {
        Err(FIELD_SLANT_RANGE as int)
    } else if bad_field(f, FIELD_ELEV_ANGLE as int) {
        Err(FIELD_ELEV_ANGLE as int)
    } else {
        Ok(
            VadRowView {
                wind_dir: f[FIELD_WIND_DIR as int],
                wind_spd: f[FIELD_WIND_SPD as int],
                slant_range: f[FIELD_SLANT_RANGE as int],
                elev_angle: f[FIELD_ELEV_ANGLE as int],
            },
        )
    }
}

/// The rows of all the data lines, in order, or the first line and field that fail.
pub open spec fn spec_rows(lines: Seq<Seq<char>>) -> Result<Seq<VadRowView>, VadError>
    decreases lines.len(),
{
    if lines.len() == 0 {
        Ok(Seq::empty())
    } else {
        match spec_rows(lines.drop_last()) {
            Err(e) => Err(e),
            Ok(rows) => match spec_row(lines.last()) {
                Err(k) => Err(
                    VadError::FieldParseError {
                        line: (lines.len() - 1) as usize,
                        field: k as usize,
                    },
                ),
                Ok(row) => Ok(rows.push(row)),
            },
        }
    }
}

/// Whether a page holds wind data: its first line, without the white space at its
/// ends, begins with the title.
pub open spec fn is_vad_page(page: Seq<Seq<char>>) -> bool {
    page.len() > 0 && starts_with(trimmed(page[0]), vad_title())
}

/// The data lines of one page: those behind the title lines of a page of wind data.
pub open spec fn page_data(page: Seq<Seq<char>>) -> Seq<Seq<char>> {
    if is_vad_page(page) && page.len() > TITLE_LINES {
        page.subrange(TITLE_LINES as int, page.len() as int)
    } else {
        Seq::empty()
    }
}

/// The data lines of all pages, in order.
pub open spec fn data_lines(pages: Seq<Seq<Seq<char>>>) -> Seq<Seq<char>>
    decreases pages.len(),
{
    if pages.len() == 0 {
        Seq::empty()
    } else {
        data_lines(pages.drop_last()) + page_data(pages.last())
    }
}

/// The rows that the pages of a tabular block give.
pub open spec fn spec_get_data(pages: Seq<Seq<Seq<char>>>) -> Result<Seq<VadRowView>, VadError> {
    spec_rows(data_lines(pages))
}

/// Reads the four numbers of one data line.
fn parse_row(line: &str) -> (r: Result<VadRow, usize>)
    ensures
        match r {
            Ok(row) => spec_row(line@) == Ok::<VadRowView, int>(row@),
            Err(k) => spec_row(line@) == Err::<VadRowView, int>(k as int),
        },
{
    let values = split_whitespace(line);
    assert(forall|k: int| 0 <= k < values.len() ==> values.deep_view()[k] == values@[k]@);
    if values.len() <= FIELD_WIND_DIR || !is_numeric(values[FIELD_WIND_DIR].as_str()) {
        return Err(FIELD_WIND_DIR);
    }
    if values.len() <= FIELD_WIND_SPD || !is_numeric(values[FIELD_WIND_SPD].as_str()) {
        return Err(FIELD_WIND_SPD);
    }
    if values.len() <= FIELD_SLANT_RANGE || !is_numeric(values[FIELD_SLANT_RANGE].as_str()) {
        return Err(FIELD_SLANT_RANGE);
    }
    if values.len() <= FIELD_ELEV_ANGLE || !is_numeric(values[FIELD_ELEV_ANGLE].as_str()) {
        return Err(FIELD_ELEV_ANGLE);
    }
    Ok(
        VadRow {
            wind_dir: values[FIELD_WIND_DIR].clone(),
            wind_spd: values[FIELD_WIND_SPD].clone(),
            slant_range: values[FIELD_SLANT_RANGE].clone(),
            elev_angle: values[FIELD_ELEV_ANGLE].clone(),
        },
    )
}

/// Gathers the data lines of the pages of wind data.
fn collect_data_lines(messages: &Vec<Vec<String>>) -> (lines: Vec<String>)
    ensures
        lines.deep_view() == data_lines(messages.deep_view()),
{
    let mut vad_list: Vec<String> = Vec::new();
    let ghost pages = messages.deep_view();
    assert(vad_list.deep_view() =~= Seq::<Seq<char>>::empty());
    assert(pages.take(0) =~= Seq::empty());
    let mut i: usize = 0;
    while i < messages.len()
        invariant
            i <= messages.len(),
            pages == messages.deep_view(),
            vad_list.deep_view() == data_lines(pages.take(i as int)),
        decreases messages.len() - i,
    {
        let page = &messages[i];
        let ghost text = page.deep_view();
        let ghost before = vad_list.deep_view();
        assert(pages[i as int] == text);
        assert(pages.take(i + 1).drop_last() =~= pages.take(i as int));
        assert(pages.take(i + 1).last() == text);
        assert(forall|k: int| 0 <= k < page.len() ==> text[k] == page@[k]@);
        if page.len() > TITLE_LINES && trimmed_starts_with(
            page[0].as_str(),
            "VAD Algorithm Output",
        ) {
            let mut j: usize = TITLE_LINES;
            assert(before + text.subrange(3, 3) =~= before);
            while j < page.len()
                invariant
                    TITLE_LINES <= j <= page.len(),
                    text == page.deep_view(),
                    vad_list.deep_view() == before + text.subrange(3, j as int),
                decreases page.len() - j,
            {
                let ghost so_far = vad_list.deep_view();
                vad_list.push(page[j].clone());
                assert(vad_list.deep_view() =~= so_far.push(text[j as int]));
                j += 1;
                assert(before + text.subrange(3, j as int) =~= (before + text.subrange(
                    3,
                    j - 1,
                )).push(text[j - 1]));
            }
            assert(before + Seq::<Seq<char>>::empty() =~= before);
        } else {
            assert(before + Seq::<Seq<char>>::empty() =~= before);
        }
        i += 1;
    }
    assert(pages.take(i as int) =~= pages);
    vad_list
}

/// Finds the pages of wind data and reads the numbers of their data lines.
///
/// No line is skipped: the first field that is missing or is not a number ends the
/// extraction, and the error names the line, counted among the data lines from 0, and
/// the position of the field.
pub fn get_data(messages: &Vec<Vec<String>>) -> (r: Result<Vec<VadRow>, VadError>)
    ensures
        match r {
            Ok(rows) => spec_get_data(messages.deep_view()) == Ok::<Seq<VadRowView>, VadError>(
                rows_view(rows@),
            ),
            Err(e) => spec_get_data(messages.deep_view()) == Err::<Seq<VadRowView>, VadError>(e),
        },
{
    let vad_list = collect_data_lines(messages);
    let ghost lines = vad_list.deep_view();
    let mut data: Vec<VadRow> = Vec::new();
    assert(rows_view(data@) =~= Seq::<VadRowView>::empty());
    assert(lines.take(0) =~= Seq::empty());
    let mut i: usize = 0;
    while i < vad_list.len()
        invariant
            i <= vad_list.len(),
            lines == vad_list.deep_view(),
            lines == data_lines(messages.deep_view()),
            spec_rows(lines.take(i as int)) == Ok::<Seq<VadRowView>, VadError>(rows_view(data@)),
        decreases vad_list.len() - i,
    {
        let ghost done = rows_view(data@);
        assert(lines.take(i + 1).drop_last() =~= lines.take(i as int));
        assert(lines.take(i + 1).last() == vad_list@[i as int]@);
        match parse_row(vad_list[i].as_str()) {
            Ok(row) => {
                let ghost content = row@;
                data.push(row);
                assert(rows_view(data@) =~= done.push(content));
            },
            Err(field) => {
                proof {
                    lemma_rows_fail_early(lines, i + 1);
                }
                return Err(VadError::FieldParseError { line: i, field });
            },
        }
        i += 1;
    }
    assert(lines.take(i as int) =~= lines);
    Ok(data)
}

/// Once the first `n` lines have failed, the whole list fails in the same way.
pub proof fn lemma_rows_fail_early(lines: Seq<Seq<char>>, n: int)
    requires
        0 <= n <= lines.len(),
        spec_rows(lines.take(n)) is Err,
    ensures
        spec_rows(lines) == spec_rows(lines.take(n)),
    decreases lines.len() - n,
{
    if n < lines.len() {
        assert(lines.take(n + 1).drop_last() =~= lines.take(n));
        lemma_rows_fail_early(lines, n + 1);
    } else {
        assert(lines.take(n) =~= lines);
    }
}

/// A decoded wind-profile product.
#[derive(Debug, PartialEq, Eq)]
pub struct VadFile {
    /// The numbers of the data lines, in the order of the product.
    pub data: Vec<VadRow>,
    /// Station latitude and longitude, in thousandths of a degree.
    pub location: (i32, i32),
    /// When the scan is valid, in seconds since the Unix epoch.
    pub time: i64,
}

/// The mathematical content of a `VadFile`.
pub struct VadFileView {
    pub data: Seq<VadRowView>,
    pub location: (i32, i32),
    pub time: i64,
}

impl View for VadFile {
    type V = VadFileView;

    open spec fn view(&self) -> VadFileView {
        VadFileView { data: rows_view(self.data@), location: self.location, time: self.time }
    }
}

/// What a whole product decodes to: the message header, the description block with
/// the symbology block it may announce, the tabular block where one is announced, and
/// the rows of its pages of wind data. Without a tabular block there are no rows.
pub open spec fn spec_from_reader(bytes: Seq<u8>) -> Result<VadFileView, VadError> {
    match spec_read_headers(bytes.len() as int, 0) {
        Err(e) => Err(e),
        Ok(p) => match spec_read_desc_block(bytes, p) {
            Err(e) => Err(e),
            Ok((block, q)) => {
                let tabular = if block.has_tabular() {
                    spec_read_tabular(bytes, q)
                } else {
                    Ok((Seq::empty(), q))
                };
                match tabular {
                    Err(e) => Err(e),
                    Ok((pages, _)) => match spec_get_data(pages) {
                        Err(e) => Err(e),
                        Ok(rows) => Ok(
                            VadFileView {
                                data: rows,
                                location: (block.latitude, block.longitude),
                                time: block.valid_time,
                            },
                        ),
                    },
                }
            },
        },
    }
}

impl VadFile {
    /// Decodes a product from the bytes of its stream.
    pub fn from_reader(bytes: &[u8]) -> (r: Result<VadFile, VadError>)
        ensures
            match r {
                Ok(file) => spec_from_reader(bytes@) == Ok::<VadFileView, VadError>(file@),
                Err(e) => spec_from_reader(bytes@) == Err::<VadFileView, VadError>(e),
            },
    {
        let mut reader = ByteCursor::new(bytes);
        read_headers(&mut reader)?;
        let block = read_desc_block(&mut reader)?;
        let mut messages: Vec<Vec<String>> = Vec::new();
        assert(messages.deep_view() =~= Seq::<Seq<Seq<char>>>::empty());
        if block.has_tabular() {
            messages = read_tabular(&mut reader)?;
        }
        let data = get_data(&messages)?;
        Ok(VadFile { data, location: (block.latitude, block.longitude), time: block.valid_time })
    }
}

/// A product whose code is not 48 is refused at the code, whatever follows it.
///
/// The message header takes 48 bytes and the product code stands 12 bytes into the
/// description block: a stream that reaches past the code and holds another value
/// there decodes to `ProductCodeMismatch` with that offset and that value. No later
/// byte of the stream has any part in the result.
pub proof fn lemma_product_code_mismatch(bytes: Seq<u8>)
    requires
        62 <= bytes.len() <= usize::MAX,
        i16_at(bytes, 60) != VWP_PRODUCT_CODE,
    ensures
        spec_from_reader(bytes) == Err::<VadFileView, VadError>(
            VadError::ProductCodeMismatch { offset: 60, found: i16_at(bytes, 60) },
        ),
{
}

/// A stream that ends inside the message header is refused as truncated.
pub proof fn lemma_truncated_header(bytes: Seq<u8>)
    requires
        bytes.len() < 48,
    ensures
        spec_from_reader(bytes) matches Err(e) && e is TruncatedInput,
{
}

} // verus!
