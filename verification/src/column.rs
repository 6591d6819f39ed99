use vstd::prelude::*;

verus! {

/// Physical layout of a string column: narrow-offset, wide-offset, or
/// view/inlined.  All three carry the same logical content.
#[derive(Debug, PartialEq, Eq, Structural, Clone, Copy)]
pub enum TextEncoding {
    Narrow,
    Wide,
    View,
}

/// Physical layout of a list column: offset-based or view-based, with
/// narrow or wide offsets.
#[derive(Debug, PartialEq, Eq, Structural, Clone, Copy)]
pub enum ListEncoding {
    Offset,
    LargeOffset,
    OffsetView,
    LargeOffsetView,
}

/// One column of a batch, reduced to a closed union of the physical
/// encodings the decoder recognises.
///
/// Every variant carries its logical content as plain per-row values, so
/// that the extractors are total functions over this type; which variant a
/// real column maps to is decided once, at the batch boundary.  A column
/// whose physical type is none of these becomes [`ColumnData::Other`] and
/// is rejected by every extractor.
#[derive(Debug, PartialEq, Eq)]
pub enum ColumnData {
    /// The untyped all-null column an absent partition produces.
    Nulls { len: usize },
    Text { enc: TextEncoding, cells: Vec<Option<String>> },
    Int8 { cells: Vec<Option<i8>> },
    Int16 { cells: Vec<Option<i16>> },
    Int32 { cells: Vec<Option<i32>> },
    Int64 { cells: Vec<Option<i64>> },
    UInt8 { cells: Vec<Option<u8>> },
    UInt16 { cells: Vec<Option<u16>> },
    UInt32 { cells: Vec<Option<u32>> },
    UInt64 { cells: Vec<Option<u64>> },
    /// A struct column: per-row validity plus one child column per field.
    Struct { validity: Vec<bool>, fields: Vec<(String, ColumnData)> },
    /// A list column: one optional child column per row; a present cell
    /// holds that row's elements as its own rows.
    List { enc: ListEncoding, cells: Vec<Option<ColumnData>> },
    /// An unrecognised physical type, kept only to be reported.
    Other { len: usize, label: String },
}

impl ColumnData {
    /// Number of rows of the column.
    pub open spec fn num_rows(self) -> nat {
        match self {
            ColumnData::Nulls { len } => len as nat,
            ColumnData::Text { cells, .. } => cells@.len(),
            ColumnData::Int8 { cells } => cells@.len(),
            ColumnData::Int16 { cells } => cells@.len(),
            ColumnData::Int32 { cells } => cells@.len(),
            ColumnData::Int64 { cells } => cells@.len(),
            ColumnData::UInt8 { cells } => cells@.len(),
            ColumnData::UInt16 { cells } => cells@.len(),
            ColumnData::UInt32 { cells } => cells@.len(),
            ColumnData::UInt64 { cells } => cells@.len(),
            ColumnData::Struct { validity, .. } => validity@.len(),
            ColumnData::List { cells, .. } => cells@.len(),
            ColumnData::Other { len, .. } => len as nat,
        }
    }

    /// Well-formedness: every struct column's children have exactly as
    /// many rows as the struct itself, recursively.  Columns read from a
    /// real batch always satisfy this; the extractors require it.
    pub open spec fn wf(self) -> bool
        decreases self,
    {
        match self {
            ColumnData::Struct { validity, fields } => forall|k: int|
                0 <= k < fields@.len() ==> (#[trigger] fields@[k]).1.num_rows() == validity@.len()
                    && fields@[k].1.wf(),
            ColumnData::List { cells, .. } => forall|i: int|
                0 <= i < cells@.len() ==> match #[trigger] cells@[i] {
                    Some(c) => c.wf(),
                    None => true,
                },
            _ => true,
        }
    }

    /// The column is one of the integer encodings.
    pub open spec fn is_int_encoded(self) -> bool {
        match self {
            ColumnData::Int8 { .. } => true,
            ColumnData::Int16 { .. } => true,
            ColumnData::Int32 { .. } => true,
            ColumnData::Int64 { .. } => true,
            ColumnData::UInt8 { .. } => true,
            ColumnData::UInt16 { .. } => true,
            ColumnData::UInt32 { .. } => true,
            ColumnData::UInt64 { .. } => true,
            _ => false,
        }
    }

    /// Logical content of an integer column, widened to mathematical
    /// integers.
    pub open spec fn int_cells(self) -> Seq<Option<int>> {
        match self {
            ColumnData::Int8 { cells } => cells@.map(
                |i: int, o: Option<i8>|
                    match o {
                        Some(v) => Some(v as int),
                        None => None,
                    },
            ),
            ColumnData::Int16 { cells } => cells@.map(
                |i: int, o: Option<i16>|
                    match o {
                        Some(v) => Some(v as int),
                        None => None,
                    },
            ),
            ColumnData::Int32 { cells } => cells@.map(
                |i: int, o: Option<i32>|
                    match o {
                        Some(v) => Some(v as int),
                        None => None,
                    },
            ),
            ColumnData::Int64 { cells } => cells@.map(
                |i: int, o: Option<i64>|
                    match o {
                        Some(v) => Some(v as int),
                        None => None,
                    },
            ),
            ColumnData::UInt8 { cells } => cells@.map(
                |i: int, o: Option<u8>|
                    match o {
                        Some(v) => Some(v as int),
                        None => None,
                    },
            ),
            ColumnData::UInt16 { cells } => cells@.map(
                |i: int, o: Option<u16>|
                    match o {
                        Some(v) => Some(v as int),
                        None => None,
                    },
            ),
            ColumnData::UInt32 { cells } => cells@.map(
                |i: int, o: Option<u32>|
                    match o {
                        Some(v) => Some(v as int),
                        None => None,
                    },
            ),
            ColumnData::UInt64 { cells } => cells@.map(
                |i: int, o: Option<u64>|
                    match o {
                        Some(v) => Some(v as int),
                        None => None,
                    },
            ),
            _ => Seq::empty(),
        }
    }

    /// Logical content of a text column.
    pub open spec fn text_cells(self) -> Seq<Option<Seq<char>>> {
        match self {
            ColumnData::Text { cells, .. } => cells@.map(
                |i: int, o: Option<String>|
                    match o {
                        Some(s) => Some(s@),
                        None => None,
                    },
            ),
            _ => Seq::empty(),
        }
    }

    /// Label of the column's physical type, as reported in mismatch
    /// errors.
    pub open spec fn spec_type_label(self) -> Seq<char> {
        match self {
            ColumnData::Nulls { .. } => "Null"@,
            ColumnData::Text { enc: TextEncoding::Narrow, .. } => "Utf8"@,
            ColumnData::Text { enc: TextEncoding::Wide, .. } => "LargeUtf8"@,
            ColumnData::Text { enc: TextEncoding::View, .. } => "Utf8View"@,
            ColumnData::Int8 { .. } => "Int8"@,
            ColumnData::Int16 { .. } => "Int16"@,
            ColumnData::Int32 { .. } => "Int32"@,
            ColumnData::Int64 { .. } => "Int64"@,
            ColumnData::UInt8 { .. } => "UInt8"@,
            ColumnData::UInt16 { .. } => "UInt16"@,
            ColumnData::UInt32 { .. } => "UInt32"@,
            ColumnData::UInt64 { .. } => "UInt64"@,
            ColumnData::Struct { .. } => "Struct"@,
            ColumnData::List { enc: ListEncoding::Offset, .. } => "List"@,
            ColumnData::List { enc: ListEncoding::LargeOffset, .. } => "LargeList"@,
            ColumnData::List { enc: ListEncoding::OffsetView, .. } => "ListView"@,
            ColumnData::List { enc: ListEncoding::LargeOffsetView, .. } => "LargeListView"@,
            ColumnData::Other { label, .. } => label@,
        }
    }

    /// Executable form of [`Self::spec_type_label`].
    pub fn type_label(&self) -> (r: String)
        ensures
            r@ == self.spec_type_label(),
    {
        match self {
            ColumnData::Nulls { .. } => String::from_str("Null"),
            ColumnData::Text { enc: TextEncoding::Narrow, .. } => String::from_str("Utf8"),
            ColumnData::Text { enc: TextEncoding::Wide, .. } => String::from_str("LargeUtf8"),
            ColumnData::Text { enc: TextEncoding::View, .. } => String::from_str("Utf8View"),
            ColumnData::Int8 { .. } => String::from_str("Int8"),
            ColumnData::Int16 { .. } => String::from_str("Int16"),
            ColumnData::Int32 { .. } => String::from_str("Int32"),
            ColumnData::Int64 { .. } => String::from_str("Int64"),
            ColumnData::UInt8 { .. } => String::from_str("UInt8"),
            ColumnData::UInt16 { .. } => String::from_str("UInt16"),
            ColumnData::UInt32 { .. } => String::from_str("UInt32"),
            ColumnData::UInt64 { .. } => String::from_str("UInt64"),
            ColumnData::Struct { .. } => String::from_str("Struct"),
            ColumnData::List { enc: ListEncoding::Offset, .. } => String::from_str("List"),
            ColumnData::List { enc: ListEncoding::LargeOffset, .. } => String::from_str(
                "LargeList",
            ),
            ColumnData::List { enc: ListEncoding::OffsetView, .. } => String::from_str("ListView"),
            ColumnData::List { enc: ListEncoding::LargeOffsetView, .. } => String::from_str(
                "LargeListView",
            ),
            ColumnData::Other { label, .. } => label.clone(),
        }
    }

    /// Executable row count.
    pub fn row_count(&self) -> (r: usize)
        ensures
            r == self.num_rows(),
    {
        match self {
            ColumnData::Nulls { len } => *len,
            ColumnData::Text { cells, .. } => cells.len(),
            ColumnData::Int8 { cells } => cells.len(),
            ColumnData::Int16 { cells } => cells.len(),
            ColumnData::Int32 { cells } => cells.len(),
            ColumnData::Int64 { cells } => cells.len(),
            ColumnData::UInt8 { cells } => cells.len(),
            ColumnData::UInt16 { cells } => cells.len(),
            ColumnData::UInt32 { cells } => cells.len(),
            ColumnData::UInt64 { cells } => cells.len(),
            ColumnData::Struct { validity, .. } => validity.len(),
            ColumnData::List { cells, .. } => cells.len(),
            ColumnData::Other { len, .. } => *len,
        }
    }
}

} // verus!
