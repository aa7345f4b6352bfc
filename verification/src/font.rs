//! Style and naming metadata from the binary tables of one font.
//!
//! The tables themselves are read by the allsorts crate; what this module
//! decides from their values is verified: whether the font is monospace,
//! which patterns its naming records give rise to, and which pair of
//! family and name a lookup reports.
//!
//! A font is opened once: the container is read, a provider of its
//! tables is made, and every table is fetched from that provider.  A
//! WOFF2 container is opened only where its provider can be made without
//! rebuilding tables, that is where the index lies within its collection
//! and neither its glyph table nor its horizontal-metrics table is stored
//! transformed.  Any other WOFF2 container counts as one that cannot be
//! read.
use crate::cache::{
    as_map, ascending, entries_of, index_of, keys_of, lemma_ascending_lookup, Entry, FcFontCache,
};
use crate::pattern::{
    definite, text_of, FcFontPath, FcPattern, LocationModel, PatternMatch, PatternModel,
};
use allsorts::binary::read::ReadScope;
use allsorts::font_data::{DynamicFontTableProvider, FontData};
use allsorts::get_name::fontcode_get_name;
use allsorts::post::PostTable;
use allsorts::tables::os2::Os2;
use allsorts::tables::{FontTableProvider, HeadTable, HheaTable, HmtxTable, MaxpTable, NameTable};
use crate::text::copy_text;
use vstd::prelude::*;
use vstd::string::*;

verus! {

/// Tag of the header table, `head`.
pub const TAG_HEAD: u32 = 0x68656164;

/// Tag of the spacing table, `post`.
pub const TAG_POST: u32 = 0x706F7374;

/// Tag of the style-classification table, `OS/2`.
pub const TAG_OS_2: u32 = 0x4F532F32;

/// Tag of the horizontal header table, `hhea`.
pub const TAG_HHEA: u32 = 0x68686561;

/// Tag of the maximum-profile table, `maxp`.
pub const TAG_MAXP: u32 = 0x6D617870;

/// Tag of the horizontal-metrics table, `hmtx`.
pub const TAG_HMTX: u32 = 0x686D7478;

/// Tag of the naming table, `name`.
pub const TAG_NAME: u32 = 0x6E616D65;

/// Identifier of the naming records that hold the family name.
pub const FONT_SPECIFIER_FAMILY_ID: u16 = 1;

/// Identifier of the naming records that hold the full name.
pub const FONT_SPECIFIER_NAME_ID: u16 = 4;

/// The panose class that marks a font as monospace.
pub const PANOSE_MONOSPACE: u8 = 2;

/// What a lookup finds: nothing, something that cannot be read, or a
/// value.
#[derive(Debug, PartialEq, Eq)]
pub enum Found<T> {
    /// The font does not hold it.
    Absent,
    /// The font holds it, but it cannot be read.
    Malformed,
    /// The value read.
    Present(T),
}

/// A font container as allsorts reads it.  The library carries it from
/// the call that reads it to the calls that ask it.
#[verifier::external_type_specification]
#[verifier::external_body]
pub struct ExFontData<'a>(FontData<'a>);

/// The tables of one font of a container, as allsorts provides them.
#[verifier::external_type_specification]
#[verifier::external_body]
pub struct ExDynamicFontTableProvider<'a>(DynamicFontTableProvider<'a>);

/// The tables of one font: each tag that the font holds, with the bytes
/// of its table, or `None` where the table cannot be fetched.
pub type TableSet = Map<u32, Option<Seq<u8>>>;

/// Whether allsorts reads the bytes as a font container.
pub uninterp spec fn reads_as_container(font: Seq<u8>) -> bool;

/// The bytes that a container was read from.
pub uninterp spec fn container_bytes(container: FontData<'_>) -> Seq<u8>;

/// For a compressed container of the second kind (WOFF2): the number of
/// fonts in its collection directory, `Some(None)` where it has no such
/// directory.  `None` for every other container.
pub uninterp spec fn woff2_fonts(font: Seq<u8>) -> Option<Option<usize>>;

/// For a compressed container of the second kind (WOFF2): the transformed
/// length in the directory entry of table `tag` of font `index`, `None`
/// where the font has no such entry.  `None` for every other container.
pub uninterp spec fn woff2_transform(font: Seq<u8>, index: usize, tag: u32) -> Option<
    Option<u32>,
>;

/// The tables that allsorts provides for font `index` of a container,
/// `None` where it reports an error.
pub uninterp spec fn font_tables(font: Seq<u8>, index: usize) -> Option<TableSet>;

/// The tables that a provider holds.
pub uninterp spec fn provider_tables(provider: DynamicFontTableProvider<'_>) -> TableSet;

/// The bold and italic flags that allsorts reads from a header table.
pub uninterp spec fn head_flags(table: Seq<u8>) -> Option<(bool, bool)>;

/// The fixed-pitch field that allsorts reads from a spacing table.
pub uninterp spec fn post_pitch(table: Seq<u8>) -> Option<u32>;

/// The ten classification bytes that allsorts reads from a
/// style-classification table.
pub uninterp spec fn os2_panose(table: Seq<u8>) -> Option<Seq<u8>>;

/// The number of horizontal metrics that allsorts reads from a horizontal
/// header table.
pub uninterp spec fn hhea_metrics(table: Seq<u8>) -> Option<u16>;

/// The number of glyphs that allsorts reads from a maximum-profile table.
pub uninterp spec fn maxp_glyphs(table: Seq<u8>) -> Option<u16>;

/// The advance widths of the horizontal metrics that allsorts reads from a
/// horizontal-metrics table, given the two counts.
pub uninterp spec fn hmtx_advances(table: Seq<u8>, glyphs: u16, metrics: u16) -> Option<Seq<u16>>;

/// The identifiers of the records that allsorts reads from a naming
/// table, in table order.
pub uninterp spec fn name_record_ids(table: Seq<u8>) -> Option<Seq<u16>>;

/// The string that allsorts selects and decodes for an identifier in a
/// naming table.
pub uninterp spec fn name_text(table: Seq<u8>, name_id: u16) -> Option<Seq<char>>;

/// The content of bytes that were looked up.
pub open spec fn bytes_of(data: Found<Vec<u8>>) -> Found<Seq<u8>> {
    match data {
        Found::Present(d) => Found::Present(d@),
        Found::Malformed => Found::Malformed,
        Found::Absent => Found::Absent,
    }
}

/// Reads a container with allsorts (`ReadScope::read::<FontData>`).
/// Trusted: the result is the container read from these bytes, `None`
/// where allsorts reports an error.
#[verifier::external_body]
fn read_container<'a>(font: &'a [u8]) -> (r: Option<FontData<'a>>)
    ensures
        match r {
            Some(container) => reads_as_container(font@) && container_bytes(container) == font@,
            None => !reads_as_container(font@),
        },
{
    ReadScope::new(font).read::<FontData<'_>>().ok()
}

/// Reads the `collection_directory` field of a `Woff2Font` of allsorts.
/// Trusted: for a WOFF2 container the result is the number of fonts in
/// that directory, `Some(None)` without a directory; `None` for any other
/// container.
#[verifier::external_body]
fn woff2_font_count(container: &FontData<'_>) -> (r: Option<Option<usize>>)
    ensures
        r == woff2_fonts(container_bytes(*container)),
{
    let FontData::Woff2(woff) = container else { return None };
    Some(woff.collection_directory.as_ref().map(|directory| directory.fonts().count()))
}

/// Calls `Woff2Font::find_table_entry` of allsorts.  Trusted: for a WOFF2
/// container the result is the `transform_length` field of the entry
/// found, `None` where none is found; `None` for any other container.
#[verifier::external_body]
fn woff2_entry_transform(container: &FontData<'_>, index: usize, tag: u32) -> (r: Option<
    Option<u32>,
>)
    ensures
        r == woff2_transform(container_bytes(*container), index, tag),
{
    let FontData::Woff2(woff) = container else { return None };
    woff.find_table_entry(tag, index).map(|entry| entry.transform_length)
}

/// Tag of the glyph table, `glyf`.
pub const TAG_GLYF: u32 = 0x676C7966;

/// A table is stored transformed.
pub open spec fn is_transformed(transform: Option<Option<u32>>) -> bool {
    transform matches Some(Some(_))
}

/// The provider of font `index` can be made without rebuilding tables:
/// the container is not a WOFF2 container, or it is one in which the
/// index lies within the collection and neither the glyph table nor the
/// horizontal-metrics table of the font is stored transformed.
pub open spec fn rebuilds_nothing(font: Seq<u8>, index: usize) -> bool {
    match woff2_fonts(font) {
        None => true,
        Some(fonts) => {
            &&& fonts matches Some(count) ==> index < count
            &&& !is_transformed(woff2_transform(font, index, TAG_GLYF))
            &&& !is_transformed(woff2_transform(font, index, TAG_HMTX))
        },
    }
}

/// Calls `FontData::table_provider` of allsorts.  Trusted: the result
/// holds the tables that allsorts provides for this font, `None` where
/// it reports an error.  The call is made only where no table has to be
/// rebuilt: for a WOFF2 container allsorts rebuilds transformed glyph and
/// metrics tables at this point, with arithmetic on values of the file
/// that it does not guard, and it takes an index outside a WOFF2
/// collection for one that was tested before.
#[verifier::external_body]
fn table_provider<'a>(container: &FontData<'a>, index: usize) -> (r: Option<
    DynamicFontTableProvider<'a>,
>)
    requires
        rebuilds_nothing(container_bytes(*container), index),
    ensures
        match r {
            Some(provider) => font_tables(container_bytes(*container), index) == Some(
                provider_tables(provider),
            ),
            None => font_tables(container_bytes(*container), index) is None,
        },
{
    container.table_provider(index).ok()
}

/// What a table set says of one tag.
pub open spec fn table_in(tables: TableSet, tag: u32) -> Found<Seq<u8>> {
    if tables.contains_key(tag) {
        match tables[tag] {
            Some(bytes) => Found::Present(bytes),
            None => Found::Malformed,
        }
    } else {
        Found::Absent
    }
}

/// Calls `FontTableProvider::table_data` of allsorts on a provider.
/// Trusted: the result is what the provider holds for the tag:
/// `Malformed` where allsorts reports an error, `Absent` where the font
/// has no such table.
#[verifier::external_body]
fn provider_table(provider: &DynamicFontTableProvider<'_>, tag: u32) -> (r: Found<Vec<u8>>)
    ensures
        bytes_of(r) == table_in(provider_tables(*provider), tag),
{
    match provider.table_data(tag) {
        Ok(Some(data)) => Found::Present(data.into_owned()),
        Ok(None) => Found::Absent,
        Err(_) => Found::Malformed,
    }
}

/// The tables of font `index` of a container as the library opens it:
/// `None` where the bytes do not read as a container, where the provider
/// could only be made by rebuilding tables, or where allsorts reports an
/// error.
pub open spec fn opened_tables(font: Seq<u8>, index: usize) -> Option<TableSet> {
    if reads_as_container(font) && rebuilds_nothing(font, index) {
        font_tables(font, index)
    } else {
        None
    }
}

/// The bytes of the table `tag` of sub-font `index` in a font container:
/// `Malformed` where the font does not open or the table cannot be
/// fetched, `Absent` where the font holds no such table.
pub open spec fn font_table(font: Seq<u8>, index: usize, tag: u32) -> Found<Seq<u8>> {
    match opened_tables(font, index) {
        Some(tables) => table_in(tables, tag),
        None => Found::Malformed,
    }
}

/// The tables that an opened font holds.
pub open spec fn holdings(opened: Option<DynamicFontTableProvider<'_>>) -> Option<TableSet> {
    match opened {
        Some(provider) => Some(provider_tables(provider)),
        None => None,
    }
}

/// Whether the provider of font `index` can be made without rebuilding
/// tables.
fn provider_rebuilds_nothing(container: &FontData<'_>, index: usize) -> (r: bool)
    ensures
        r == rebuilds_nothing(container_bytes(*container), index),
{
    match woff2_font_count(container) {
        None => true,
        Some(fonts) => {
            let in_collection = match fonts {
                Some(count) => index < count,
                None => true,
            };
            in_collection && !stored_transformed(
                woff2_entry_transform(container, index, TAG_GLYF),
            ) && !stored_transformed(woff2_entry_transform(container, index, TAG_HMTX))
        },
    }
}

/// Whether a directory entry says that its table is stored transformed.
pub fn stored_transformed(transform: Option<Option<u32>>) -> (r: bool)
    ensures
        r == is_transformed(transform),
{
    match transform {
        Some(Some(_)) => true,
        _ => false,
    }
}

/// Opens font `index` of a container: reads the container once and has
/// its tables provided, unless that would mean rebuilding tables.
fn open_font<'a>(font: &'a [u8], index: usize) -> (r: Option<DynamicFontTableProvider<'a>>)
    ensures
        holdings(r) == opened_tables(font@, index),
{
    let container = read_container(font)?;
    if !provider_rebuilds_nothing(&container, index) {
        return None;
    }
    table_provider(&container, index)
}

/// Fetches one table of an opened font.
fn table_data(
    opened: &Option<DynamicFontTableProvider<'_>>,
    tag: u32,
    Ghost(font): Ghost<Seq<u8>>,
    Ghost(index): Ghost<usize>,
) -> (r: Found<Vec<u8>>)
    requires
        holdings(*opened) == opened_tables(font, index),
    ensures
        bytes_of(r) == font_table(font, index, tag),
{
    match opened {
        Some(provider) => provider_table(provider, tag),
        None => Found::Malformed,
    }
}

/// Reads a header table with allsorts (`HeadTable`) and asks it
/// `is_bold` and `is_italic`.  Trusted: the result is those two answers,
/// `None` where the table does not parse.
#[verifier::external_body]
fn head_style(table: &[u8]) -> (r: Option<(bool, bool)>)
    ensures
        r == head_flags(table@),
{
    let head = ReadScope::new(table).read::<HeadTable>().ok()?;
    Some((head.is_bold(), head.is_italic()))
}

/// Reads a spacing table with allsorts (`PostTable`).  Trusted: the
/// result is the `is_fixed_pitch` field of its header, `None` where the
/// table does not parse.
#[verifier::external_body]
fn post_fixed_pitch(table: &[u8]) -> (r: Option<u32>)
    ensures
        r == post_pitch(table@),
{
    let post = ReadScope::new(table).read::<PostTable<'_>>().ok()?;
    Some(post.header.is_fixed_pitch)
}

/// Reads a style-classification table with allsorts (`Os2`, sized by the
/// table's length).  Trusted: the result is its `panose` field, `None`
/// where the table does not parse.
#[verifier::external_body]
fn os2_classification(table: &[u8]) -> (r: Option<[u8; 10]>)
    ensures
        match r {
            Some(panose) => os2_panose(table@) == Some(panose@),
            None => os2_panose(table@) is None,
        },
{
    let os2 = ReadScope::new(table).read_dep::<Os2>(table.len()).ok()?;
    Some(os2.panose)
}

/// Reads a horizontal header table with allsorts (`HheaTable`).  Trusted:
/// the result is its `num_h_metrics` field, `None` where the table does
/// not parse.
#[verifier::external_body]
fn hhea_metric_count(table: &[u8]) -> (r: Option<u16>)
    ensures
        r == hhea_metrics(table@),
{
    let hhea = ReadScope::new(table).read::<HheaTable>().ok()?;
    Some(hhea.num_h_metrics)
}

/// Reads a maximum-profile table with allsorts (`MaxpTable`).  Trusted:
/// the result is its `num_glyphs` field, `None` where the table does not
/// parse.
#[verifier::external_body]
fn maxp_glyph_count(table: &[u8]) -> (r: Option<u16>)
    ensures
        r == maxp_glyphs(table@),
{
    let maxp = ReadScope::new(table).read::<MaxpTable>().ok()?;
    Some(maxp.num_glyphs)
}

/// Reads a horizontal-metrics table with allsorts (`HmtxTable`, sized by
/// the two counts).  Trusted: the result lists the `advance_width` of
/// each of its `h_metrics` in order, `None` where the table does not
/// parse.
#[verifier::external_body]
fn hmtx_advance_widths(table: &[u8], glyphs: u16, metrics: u16) -> (r: Option<Vec<u16>>)
    ensures
        match r {
            Some(advances) => hmtx_advances(table@, glyphs, metrics) == Some(advances@),
            None => hmtx_advances(table@, glyphs, metrics) is None,
        },
{
    let counts = (usize::from(glyphs), usize::from(metrics));
    let hmtx = ReadScope::new(table).read_dep::<HmtxTable<'_>>(counts).ok()?;
    Some(hmtx.h_metrics.iter().map(|metric| metric.advance_width).collect())
}

/// Reads a naming table with allsorts (`NameTable`).  Trusted: the result
/// lists the `name_id` of each of its `name_records` in order, `None`
/// where the table does not parse.
#[verifier::external_body]
fn name_ids(table: &[u8]) -> (r: Option<Vec<u16>>)
    ensures
        match r {
            Some(ids) => name_record_ids(table@) == Some(ids@),
            None => name_record_ids(table@) is None,
        },
{
    let names = ReadScope::new(table).read::<NameTable<'_>>().ok()?;
    Some(names.name_records.iter().map(|record| record.name_id).collect())
}

/// Calls `fontcode_get_name` of allsorts.  Trusted: the result is the
/// string it returns, `None` where it reports an error or finds no
/// usable record.
#[verifier::external_body]
fn name_string(table: &[u8], name_id: u16) -> (r: Option<String>)
    ensures
        text_of(r) == name_text(table@, name_id),
{
    let name = fontcode_get_name(table, name_id).ok()??;
    Some(String::from_utf8_lossy(name.to_bytes()).to_string())
}

/// All advance widths are equal.
pub open spec fn uniform(advances: Seq<u16>) -> bool {
    forall|i: int, j: int|
        0 <= i < advances.len() && 0 <= j < advances.len() ==> advances[i] == advances[j]
}

/// Whether all advance widths are equal.
pub fn all_equal(advances: &[u16]) -> (r: bool)
    ensures
        r == uniform(advances@),
{
    let mut i: usize = 1;
    while i < advances.len()
        invariant
            1 <= i,
            forall|j: int|
                0 <= j < i && j < advances@.len() ==> #[trigger] advances@[j] == advances@[0],
        decreases advances.len() - i,
    {
        if advances[i] != advances[i - 1] {
            return false;
        }
        i += 1;
    }
    true
}

/// What the tables of a font say about its spacing, one field for each
/// source.
#[derive(Debug, PartialEq, Eq)]
pub struct SpacingEvidence {
    /// The fixed-pitch field of the spacing table; `None` where the table
    /// is missing or does not parse.
    pub fixed_pitch: Option<u32>,
    /// The classification bytes of the style-classification table.
    pub panose: Found<[u8; 10]>,
    /// The advance widths of the horizontal metrics.
    pub advances: Found<Vec<u16>>,
}

/// The verdict of the first source that has one: the fixed-pitch field
/// when it is there, else the panose class, else the advance widths.
/// A source that the font does not hold passes the question on, and
/// without any source the font is not monospace.  A later source that is
/// consulted and cannot be read leaves the question without an answer
/// (`None`).
pub open spec fn spacing_verdict(
    fixed_pitch: Option<u32>,
    panose: Found<Seq<u8>>,
    advances: Found<Seq<u16>>,
) -> Option<bool> {
    match fixed_pitch {
        Some(pitch) => Some(pitch != 0),
        None => match panose {
            Found::Present(classes) => Some(classes[0] == PANOSE_MONOSPACE),
            Found::Malformed => None,
            Found::Absent => match advances {
                Found::Present(widths) => Some(uniform(widths)),
                Found::Malformed => None,
                Found::Absent => Some(false),
            },
        },
    }
}

/// The content of classification bytes that were looked up.
pub open spec fn panose_of(panose: Found<[u8; 10]>) -> Found<Seq<u8>> {
    match panose {
        Found::Present(p) => Found::Present(p@),
        Found::Malformed => Found::Malformed,
        Found::Absent => Found::Absent,
    }
}

/// The content of advance widths that were looked up.
pub open spec fn advances_of(advances: Found<Vec<u16>>) -> Found<Seq<u16>> {
    match advances {
        Found::Present(a) => Found::Present(a@),
        Found::Malformed => Found::Malformed,
        Found::Absent => Found::Absent,
    }
}

impl SpacingEvidence {
    /// The verdict on this evidence.
    pub open spec fn verdict(&self) -> Option<bool> {
        spacing_verdict(self.fixed_pitch, panose_of(self.panose), advances_of(self.advances))
    }

    /// Decides whether the font is monospace: the first source that has a
    /// verdict wins, in the order spacing table, panose class, advance
    /// widths; a font with none of them is not monospace.  `None` where
    /// the source that is to decide cannot be read.
    pub fn is_monospace(&self) -> (r: Option<bool>)
        ensures
            r == self.verdict(),
    {
        if let Some(pitch) = self.fixed_pitch {
            return Some(pitch != 0);
        }
        match &self.panose {
            Found::Present(classes) => {
                return Some(classes[0] == PANOSE_MONOSPACE);
            },
            Found::Malformed => {
                return None;
            },
            Found::Absent => {},
        }
        match &self.advances {
            Found::Present(widths) => Some(all_equal(widths.as_slice())),
            Found::Malformed => None,
            Found::Absent => Some(false),
        }
    }
}

/// A panose class decides whenever the spacing table gives no verdict,
/// whatever the advance widths are: class 2 for monospace, any other
/// class against.
pub proof fn lemma_panose_precedes_advances(panose: Seq<u8>, advances: Found<Seq<u16>>)
    requires
        panose.len() == 10,
    ensures
        spacing_verdict(None, Found::Present(panose), advances) == Some(
            panose[0] == PANOSE_MONOSPACE,
        ),
{
}

/// A verdict of the spacing table decides, whatever the other sources
/// say.
pub proof fn lemma_pitch_precedes_all(
    pitch: u32,
    panose: Found<Seq<u8>>,
    advances: Found<Seq<u16>>,
)
    ensures
        spacing_verdict(Some(pitch), panose, advances) == Some(pitch != 0),
{
}

/// The fixed-pitch field of a font's spacing table, `None` where the
/// table is missing or does not parse.
pub open spec fn font_pitch(font: Seq<u8>, index: usize) -> Option<u32> {
    match font_table(font, index, TAG_POST) {
        Found::Present(table) => post_pitch(table),
        _ => None,
    }
}

/// The classification bytes of a font's style-classification table.
pub open spec fn font_panose(font: Seq<u8>, index: usize) -> Found<Seq<u8>> {
    match font_table(font, index, TAG_OS_2) {
        Found::Present(table) => match os2_panose(table) {
            Some(panose) => Found::Present(panose),
            None => Found::Malformed,
        },
        Found::Malformed => Found::Malformed,
        Found::Absent => Found::Absent,
    }
}

/// The number of horizontal metrics of a font.
pub open spec fn font_metric_count(font: Seq<u8>, index: usize) -> Found<u16> {
    match font_table(font, index, TAG_HHEA) {
        Found::Present(table) => match hhea_metrics(table) {
            Some(count) => Found::Present(count),
            None => Found::Malformed,
        },
        Found::Malformed => Found::Malformed,
        Found::Absent => Found::Absent,
    }
}

/// The number of glyphs of a font.
pub open spec fn font_glyph_count(font: Seq<u8>, index: usize) -> Found<u16> {
    match font_table(font, index, TAG_MAXP) {
        Found::Present(table) => match maxp_glyphs(table) {
            Some(count) => Found::Present(count),
            None => Found::Malformed,
        },
        Found::Malformed => Found::Malformed,
        Found::Absent => Found::Absent,
    }
}

/// The advance widths of a font: its horizontal-metrics table read with
/// the metrics count and the glyph count of its auxiliary tables.  The
/// three tables are consulted in the order horizontal header, maximum
/// profile, horizontal metrics; the first that is missing or cannot be
/// read decides the outcome.
pub open spec fn font_advances(font: Seq<u8>, index: usize) -> Found<Seq<u16>> {
    match font_metric_count(font, index) {
        Found::Present(metrics) => match font_glyph_count(font, index) {
            Found::Present(glyphs) => match font_table(font, index, TAG_HMTX) {
                Found::Present(table) => match hmtx_advances(table, glyphs, metrics) {
                    Some(advances) => Found::Present(advances),
                    None => Found::Malformed,
                },
                Found::Malformed => Found::Malformed,
                Found::Absent => Found::Absent,
            },
            Found::Malformed => Found::Malformed,
            Found::Absent => Found::Absent,
        },
        Found::Malformed => Found::Malformed,
        Found::Absent => Found::Absent,
    }
}

/// Whether a font is monospace, by the verdict on its three sources.
pub open spec fn font_is_monospace(font: Seq<u8>, index: usize) -> Option<bool> {
    spacing_verdict(font_pitch(font, index), font_panose(font, index), font_advances(font, index))
}

/// The bold and italic flags of a font's header table, `None` where the
/// table is missing or does not parse.
pub open spec fn font_style(font: Seq<u8>, index: usize) -> Option<(bool, bool)> {
    match font_table(font, index, TAG_HEAD) {
        Found::Present(table) => head_flags(table),
        _ => None,
    }
}

/// Reads the number of horizontal metrics of an opened font.
fn read_metric_count(
    opened: &Option<DynamicFontTableProvider<'_>>,
    Ghost(font): Ghost<Seq<u8>>,
    Ghost(index): Ghost<usize>,
) -> (r: Found<u16>)
    requires
        holdings(*opened) == opened_tables(font, index),
    ensures
        r == font_metric_count(font, index),
{
    match table_data(opened, TAG_HHEA, Ghost(font), Ghost(index)) {
        Found::Present(table) => match hhea_metric_count(table.as_slice()) {
            Some(count) => Found::Present(count),
            None => Found::Malformed,
        },
        Found::Malformed => Found::Malformed,
        Found::Absent => Found::Absent,
    }
}

/// Reads the number of glyphs of an opened font.
fn read_glyph_count(
    opened: &Option<DynamicFontTableProvider<'_>>,
    Ghost(font): Ghost<Seq<u8>>,
    Ghost(index): Ghost<usize>,
) -> (r: Found<u16>)
    requires
        holdings(*opened) == opened_tables(font, index),
    ensures
        r == font_glyph_count(font, index),
{
    match table_data(opened, TAG_MAXP, Ghost(font), Ghost(index)) {
        Found::Present(table) => match maxp_glyph_count(table.as_slice()) {
            Some(count) => Found::Present(count),
            None => Found::Malformed,
        },
        Found::Malformed => Found::Malformed,
        Found::Absent => Found::Absent,
    }
}

/// Reads the advance widths of an opened font.
fn read_advances(
    opened: &Option<DynamicFontTableProvider<'_>>,
    Ghost(font): Ghost<Seq<u8>>,
    Ghost(index): Ghost<usize>,
) -> (r: Found<Vec<u16>>)
    requires
        holdings(*opened) == opened_tables(font, index),
    ensures
        advances_of(r) == font_advances(font, index),
{
    let metrics = match read_metric_count(opened, Ghost(font), Ghost(index)) {
        Found::Present(count) => count,
        Found::Malformed => {
            return Found::Malformed;
        },
        Found::Absent => {
            return Found::Absent;
        },
    };
    let glyphs = match read_glyph_count(opened, Ghost(font), Ghost(index)) {
        Found::Present(count) => count,
        Found::Malformed => {
            return Found::Malformed;
        },
        Found::Absent => {
            return Found::Absent;
        },
    };
    match table_data(opened, TAG_HMTX, Ghost(font), Ghost(index)) {
        Found::Present(table) => match hmtx_advance_widths(table.as_slice(), glyphs, metrics) {
            Some(advances) => Found::Present(advances),
            None => Found::Malformed,
        },
        Found::Malformed => Found::Malformed,
        Found::Absent => Found::Absent,
    }
}

/// Gathers what the tables of a font say about its spacing.
pub fn read_spacing_evidence(font: &[u8], index: usize) -> (r: SpacingEvidence)
    ensures
        r.fixed_pitch == font_pitch(font@, index),
        panose_of(r.panose) == font_panose(font@, index),
        advances_of(r.advances) == font_advances(font@, index),
        r.verdict() == font_is_monospace(font@, index),
{
    let opened = open_font(font, index);
    spacing_evidence(&opened, Ghost(font@), Ghost(index))
}

/// Gathers what the tables of an opened font say about its spacing.
fn spacing_evidence(
    opened: &Option<DynamicFontTableProvider<'_>>,
    Ghost(font): Ghost<Seq<u8>>,
    Ghost(index): Ghost<usize>,
) -> (r: SpacingEvidence)
    requires
        holdings(*opened) == opened_tables(font, index),
    ensures
        r.fixed_pitch == font_pitch(font, index),
        panose_of(r.panose) == font_panose(font, index),
        advances_of(r.advances) == font_advances(font, index),
        r.verdict() == font_is_monospace(font, index),
{
    let fixed_pitch = match table_data(opened, TAG_POST, Ghost(font), Ghost(index)) {
        Found::Present(table) => post_fixed_pitch(table.as_slice()),
        _ => None,
    };
    let panose = match table_data(opened, TAG_OS_2, Ghost(font), Ghost(index)) {
        Found::Present(table) => match os2_classification(table.as_slice()) {
            Some(classes) => Found::Present(classes),
            None => Found::Malformed,
        },
        Found::Malformed => Found::Malformed,
        Found::Absent => Found::Absent,
    };
    let advances = read_advances(opened, Ghost(font), Ghost(index));
    SpacingEvidence { fixed_pitch, panose, advances }
}

/// One record of a naming table: its identifier, and the string that
/// belongs to it where there is one.
#[derive(Debug, PartialEq, Eq)]
pub struct NameEntry {
    pub name_id: u16,
    pub text: Option<String>,
}

/// What a [`NameEntry`] holds, as plain values.
pub struct NameEntryModel {
    pub name_id: u16,
    pub text: Option<Seq<char>>,
}

impl View for NameEntry {
    type V = NameEntryModel;

    open spec fn view(&self) -> NameEntryModel {
        NameEntryModel { name_id: self.name_id, text: text_of(self.text) }
    }
}

impl DeepView for NameEntry {
    type V = NameEntryModel;

    open spec fn deep_view(&self) -> NameEntryModel {
        self@
    }
}

/// The string of a record as extraction reads it: records of family and
/// full name carry the string that the table gives for their identifier,
/// all other records none.
pub open spec fn record_text(table: Seq<u8>, name_id: u16) -> Option<Seq<char>> {
    if name_id == FONT_SPECIFIER_FAMILY_ID || name_id == FONT_SPECIFIER_NAME_ID {
        name_text(table, name_id)
    } else {
        None
    }
}

/// The naming records of a font, in table order; `None` where the font
/// has no naming table that parses.
pub open spec fn font_name_records(font: Seq<u8>, index: usize) -> Option<Seq<NameEntryModel>> {
    match font_table(font, index, TAG_NAME) {
        Found::Present(table) => match name_record_ids(table) {
            Some(ids) => Some(
                Seq::new(
                    ids.len(),
                    |i: int| NameEntryModel { name_id: ids[i], text: record_text(table, ids[i]) },
                ),
            ),
            None => None,
        },
        _ => None,
    }
}

/// The content of an optional list of naming records.
pub open spec fn records_of(records: Option<Vec<NameEntry>>) -> Option<Seq<NameEntryModel>> {
    match records {
        Some(r) => Some(r.deep_view()),
        None => None,
    }
}

/// Reads the naming records of a font.
pub fn read_name_records(font: &[u8], index: usize) -> (r: Option<Vec<NameEntry>>)
    ensures
        records_of(r) == font_name_records(font@, index),
{
    let opened = open_font(font, index);
    name_records(&opened, Ghost(font@), Ghost(index))
}

/// Reads the naming records of an opened font.
fn name_records(
    opened: &Option<DynamicFontTableProvider<'_>>,
    Ghost(font): Ghost<Seq<u8>>,
    Ghost(index): Ghost<usize>,
) -> (r: Option<Vec<NameEntry>>)
    requires
        holdings(*opened) == opened_tables(font, index),
    ensures
        records_of(r) == font_name_records(font, index),
{
    let table = match table_data(opened, TAG_NAME, Ghost(font), Ghost(index)) {
        Found::Present(table) => table,
        _ => {
            return None;
        },
    };
    let ids = match name_ids(table.as_slice()) {
        Some(ids) => ids,
        None => {
            return None;
        },
    };
    let family = name_string(table.as_slice(), FONT_SPECIFIER_FAMILY_ID);
    let full = name_string(table.as_slice(), FONT_SPECIFIER_NAME_ID);
    let mut records: Vec<NameEntry> = Vec::new();
    let mut i: usize = 0;
    while i < ids.len()
        invariant
            i <= ids.len(),
            records.len() == i,
            text_of(family) == name_text(table@, FONT_SPECIFIER_FAMILY_ID),
            text_of(full) == name_text(table@, FONT_SPECIFIER_NAME_ID),
            forall|j: int|
                0 <= j < i ==> (#[trigger] records@[j])@ == (NameEntryModel {
                    name_id: ids@[j],
                    text: record_text(table@, ids@[j]),
                }),
        decreases ids.len() - i,
    {
        let name_id = ids[i];
        let text = if name_id == FONT_SPECIFIER_FAMILY_ID {
            copy_text(&family)
        } else if name_id == FONT_SPECIFIER_NAME_ID {
            copy_text(&full)
        } else {
            None
        };
        records.push(NameEntry { name_id, text });
        i += 1;
    }
    assert(records.deep_view() =~= font_name_records(font, index).unwrap());
    Some(records)
}

/// The family in force after a run of records: the string of the last
/// family record that has one.
pub open spec fn family_after(records: Seq<NameEntryModel>) -> Option<Seq<char>>
    decreases records.len(),
{
    if records.len() == 0 {
        None
    } else if records.last().name_id == FONT_SPECIFIER_FAMILY_ID && records.last().text is Some {
        records.last().text
    } else {
        family_after(records.drop_last())
    }
}

/// The full name in force after a run of records: the string of the last
/// full-name record that has one.
pub open spec fn name_after(records: Seq<NameEntryModel>) -> Option<Seq<char>>
    decreases records.len(),
{
    if records.len() == 0 {
        None
    } else if records.last().name_id == FONT_SPECIFIER_NAME_ID && records.last().text is Some {
        records.last().text
    } else {
        name_after(records.drop_last())
    }
}

/// The pattern of a font with the given names and style.  Its three
/// style flags are definite; the fields that extraction does not derive
/// are left unconstrained.
pub open spec fn named_pattern(
    name: Seq<char>,
    family: Seq<char>,
    bold: bool,
    italic: bool,
    monospace: bool,
) -> PatternModel {
    PatternModel {
        name: Some(name),
        family: Some(family),
        italic: definite(italic),
        oblique: PatternMatch::DontCare,
        bold: definite(bold),
        monospace: definite(monospace),
        condensed: PatternMatch::DontCare,
        weight: 0,
        unicode_range: (0, 0),
    }
}

/// What one record emits after the records `earlier`: a full-name record
/// with a string that is not empty emits a pattern once a family is in
/// force; every other record emits nothing.
pub open spec fn emission(
    earlier: Seq<NameEntryModel>,
    record: NameEntryModel,
    bold: bool,
    italic: bool,
    monospace: bool,
) -> Option<PatternModel> {
    if record.name_id == FONT_SPECIFIER_NAME_ID {
        match (family_after(earlier), record.text) {
            (Some(family), Some(name)) => if name.len() > 0 {
                Some(named_pattern(name, family, bold, italic, monospace))
            } else {
                None
            },
            _ => None,
        }
    } else {
        None
    }
}

/// The patterns that a run of records emits, in record order.
pub open spec fn emitted(
    records: Seq<NameEntryModel>,
    bold: bool,
    italic: bool,
    monospace: bool,
) -> Seq<PatternModel>
    decreases records.len(),
{
    if records.len() == 0 {
        Seq::empty()
    } else {
        let rest = emitted(records.drop_last(), bold, italic, monospace);
        match emission(records.drop_last(), records.last(), bold, italic, monospace) {
            Some(pattern) => rest.push(pattern),
            None => rest,
        }
    }
}

/// `out` holds each of `patterns` exactly once, in key order, each with
/// the location `location`, and nothing else.
pub open spec fn is_pattern_set(
    out: Seq<Entry>,
    patterns: Seq<PatternModel>,
    location: LocationModel,
) -> bool {
    &&& ascending(out)
    &&& forall|p: PatternModel| #[trigger] patterns.contains(p) <==> keys_of(out).contains(p)
    &&& forall|i: int| 0 <= i < out.len() ==> (#[trigger] out[i]).1 == location
}

/// Derives the index entries of one font from its naming records and
/// style: walks the records in order, keeps the most recent family, and
/// emits a pattern at each full-name record that has a string which is
/// not empty.  The result holds each emitted pattern once, in key order,
/// each located at sub-font `font_index` of `path`.
pub fn patterns_from_names(
    records: &Vec<NameEntry>,
    bold: bool,
    italic: bool,
    monospace: bool,
    path: &str,
    font_index: usize,
) -> (r: Vec<(FcPattern, FcFontPath)>)
    ensures
        is_pattern_set(
            entries_of(r@),
            emitted(records.deep_view(), bold, italic, monospace),
            LocationModel { path: path@, font_index },
        ),
{
    let ghost all = records.deep_view();
    let ghost location = LocationModel { path: path@, font_index };
    let mut family: Option<String> = None;
    let mut found = FcFontCache::new();
    let mut i: usize = 0;
    assert(all.take(0) =~= Seq::<NameEntryModel>::empty());
    while i < records.len()
        invariant
            i <= records.len(),
            all == records.deep_view(),
            all.len() == records.len(),
            location == (LocationModel { path: path@, font_index }),
            text_of(family) == family_after(all.take(i as int)),
            found.wf(),
            forall|p: PatternModel| #[trigger]
                emitted(all.take(i as int), bold, italic, monospace).contains(p) <==> keys_of(
                    found@,
                ).contains(p),
            forall|j: int| 0 <= j < found@.len() ==> (#[trigger] found@[j]).1 == location,
        decreases records.len() - i,
    {
        let record = &records[i];
        let ghost before = all.take(i as int);
        let ghost shown = emitted(before, bold, italic, monospace);
        let ghost old_entries = found@;
        proof {
            assert(all.take(i + 1).drop_last() =~= before);
            assert(all.take(i + 1).last() == record@);
        }
        if record.name_id == FONT_SPECIFIER_FAMILY_ID {
            if record.text.is_some() {
                family = copy_text(&record.text);
            }
        } else if record.name_id == FONT_SPECIFIER_NAME_ID {
            if let (Some(family_text), Some(name_text)) = (&family, &record.text) {
                if !name_text.as_str().is_empty() {
                    let pattern = FcPattern {
                        name: Some(name_text.clone()),
                        family: Some(family_text.clone()),
                        italic: PatternMatch::from_bool(italic),
                        oblique: PatternMatch::DontCare,
                        bold: PatternMatch::from_bool(bold),
                        monospace: PatternMatch::from_bool(monospace),
                        condensed: PatternMatch::DontCare,
                        weight: 0,
                        unicode_range: [0, 0],
                    };
                    let place = FcFontPath { path: String::from_str(path), font_index };
                    let ghost key = pattern@;
                    assert(key == named_pattern(name_text@, family_text@, bold, italic, monospace));
                    found.insert(pattern, place);
                    proof {
                        let now = found@;
                        assert forall|p: PatternModel| #[trigger]
                            shown.push(key).contains(p) <==> keys_of(now).contains(p) by {
                            assert(as_map(now).contains_key(p) <==> keys_of(now).contains(p));
                            assert(as_map(old_entries).contains_key(p) <==> keys_of(
                                old_entries,
                            ).contains(p));
                            if shown.push(key).contains(p) {
                                let j = choose|j: int|
                                    0 <= j < shown.push(key).len() && shown.push(key)[j] == p;
                                if j < shown.len() {
                                    assert(shown[j] == p);
                                    assert(shown.contains(p));
                                }
                            }
                            if shown.contains(p) {
                                let j = choose|j: int| 0 <= j < shown.len() && shown[j] == p;
                                assert(shown.push(key)[j] == p);
                            }
                            assert(shown.push(key)[shown.len() as int] == key);
                        }
                        assert forall|j: int| 0 <= j < now.len() implies (#[trigger] now[j]).1
                            == location by {
                            lemma_ascending_lookup(now, j);
                            if now[j].0 != key {
                                assert(as_map(old_entries).contains_key(now[j].0));
                                let b = index_of(old_entries, now[j].0);
                                lemma_ascending_lookup(old_entries, b);
                            }
                        }
                    }
                }
            }
        }
        i += 1;
    }
    assert(all.take(records.len() as int) =~= all);
    found.into_entries()
}

/// Derives the index entries of one font file from its bytes: the bold
/// and italic flags of its header table, the monospace verdict on its
/// spacing evidence, and the patterns that its naming records emit, each
/// located at sub-font 0 of `filepath`.  A font without a header table or
/// a naming table that parses yields `None`, and so does one whose
/// spacing evidence leaves the verdict open; spacing sources that the
/// font does not hold only pass the question on.
pub fn FcParseFont(filepath: &str, font: &[u8]) -> (r: Option<Vec<(FcPattern, FcFontPath)>>)
    ensures
        match (font_style(font@, 0), font_is_monospace(font@, 0), font_name_records(font@, 0)) {
            (Some(style), Some(monospace), Some(records)) => r is Some && is_pattern_set(
                entries_of(r->0@),
                emitted(records, style.0, style.1, monospace),
                LocationModel { path: filepath@, font_index: 0 },
            ),
            _ => r is None,
        },
{
    let font_index: usize = 0;
    let opened = open_font(font, font_index);
    let (is_bold, is_italic) = match table_data(&opened, TAG_HEAD, Ghost(font@), Ghost(font_index)) {
        Found::Present(head) => head_style(head.as_slice())?,
        _ => {
            return None;
        },
    };
    let is_monospace = spacing_evidence(&opened, Ghost(font@), Ghost(font_index)).is_monospace()?;
    let records = name_records(&opened, Ghost(font@), Ghost(font_index))?;
    Some(patterns_from_names(&records, is_bold, is_italic, is_monospace, filepath, font_index))
}

/// Both a family and a full name are in force after the first `n`
/// records.
pub open spec fn complete(records: Seq<NameEntryModel>, n: int) -> bool {
    family_after(records.take(n)) is Some && name_after(records.take(n)) is Some
}

/// The content of an optional pair of strings.
pub open spec fn pair_text(pair: Option<(String, String)>) -> Option<(Seq<char>, Seq<char>)> {
    match pair {
        Some(p) => Some((p.0@, p.1@)),
        None => None,
    }
}

/// `found` is the family and full name in force at the first point of
/// `records` where both are; `None` where the records never give both.
pub open spec fn is_family_and_name(
    records: Seq<NameEntryModel>,
    found: Option<(Seq<char>, Seq<char>)>,
) -> bool {
    match found {
        Some(pair) => exists|n: int|
            0 <= n <= records.len() && #[trigger] complete(records, n) && (forall|m: int|
                0 <= m < n ==> !#[trigger] complete(records, m)) && family_after(records.take(n))
                == Some(pair.0) && name_after(records.take(n)) == Some(pair.1),
        None => forall|n: int| 0 <= n <= records.len() ==> !#[trigger] complete(records, n),
    }
}

/// Scans naming records once and stops as soon as both a family record
/// and a full-name record with a string have been seen; reports the
/// family and the name in force at that point.
pub fn family_and_name(records: &Vec<NameEntry>) -> (r: Option<(String, String)>)
    ensures
        is_family_and_name(records.deep_view(), pair_text(r)),
{
    let ghost all = records.deep_view();
    let mut family: Option<String> = None;
    let mut name: Option<String> = None;
    let mut i: usize = 0;
    assert(all.take(0) =~= Seq::<NameEntryModel>::empty());
    while i < records.len()
        invariant
            i <= records.len(),
            all == records.deep_view(),
            all.len() == records.len(),
            text_of(family) == family_after(all.take(i as int)),
            text_of(name) == name_after(all.take(i as int)),
            forall|m: int| 0 <= m <= i ==> !#[trigger] complete(all, m),
        decreases records.len() - i,
    {
        let record = &records[i];
        proof {
            assert(all.take(i + 1).drop_last() =~= all.take(i as int));
            assert(all.take(i + 1).last() == record@);
        }
        if record.name_id == FONT_SPECIFIER_FAMILY_ID {
            if record.text.is_some() {
                family = copy_text(&record.text);
            }
        } else if record.name_id == FONT_SPECIFIER_NAME_ID {
            if record.text.is_some() {
                name = copy_text(&record.text);
            }
        }
        i += 1;
        if family.is_some() && name.is_some() {
            assert(complete(all, i as int));
            return Some((family.unwrap(), name.unwrap()));
        }
    }
    None
}

/// Looks up the family and full name of the font at a location, given
/// the bytes that the location refers to: the naming records of sub-font
/// `font_index` are scanned as [`family_and_name`] says.  `None` where
/// the font has no naming table that parses or its records never give
/// both names.
pub fn get_font_name(font_path: &FcFontPath, font: &[u8]) -> (r: Option<(String, String)>)
    ensures
        match font_name_records(font@, font_path.font_index) {
            Some(records) => is_family_and_name(records, pair_text(r)),
            None => r is None,
        },
{
    let records = read_name_records(font, font_path.font_index)?;
    family_and_name(&records)
}

/// The entries of the files that parsed, file after file.
pub open spec fn gathered(parsed: Seq<Option<Vec<(FcPattern, FcFontPath)>>>) -> Seq<Entry>
    decreases parsed.len(),
{
    if parsed.len() == 0 {
        Seq::empty()
    } else {
        let rest = gathered(parsed.drop_last());
        match parsed.last() {
            Some(entries) => rest + entries_of(entries@),
            None => rest,
        }
    }
}

/// Gathers the results of parsing a list of files into one list: files
/// that did not parse are passed over, the entries of the others follow
/// each other in file order.
pub fn FcParseFontFiles(parsed: Vec<Option<Vec<(FcPattern, FcFontPath)>>>) -> (r: Vec<
    (FcPattern, FcFontPath),
>)
    ensures
        entries_of(r@) == gathered(parsed@),
{
    let mut out: Vec<(FcPattern, FcFontPath)> = Vec::new();
    assert(parsed@.take(0) =~= Seq::<Option<Vec<(FcPattern, FcFontPath)>>>::empty());
    assert(entries_of(out@) =~= Seq::<Entry>::empty());
    for file in it: parsed
        invariant
            it.seq() == parsed@,
            entries_of(out@) == gathered(parsed@.take(it.index() as int)),
    {
        proof {
            let n = it.index();
            assert(parsed@.take(n + 1).drop_last() =~= parsed@.take(n as int));
            assert(parsed@.take(n + 1).last() == file);
        }
        if let Some(mut entries) = file {
            let ghost before = out@;
            let ghost added = entries@;
            out.append(&mut entries);
            assert(entries_of(out@) =~= entries_of(before) + entries_of(added));
        }
    }
    assert(parsed@.take(parsed@.len() as int) =~= parsed@);
    out
}

} // verus!
