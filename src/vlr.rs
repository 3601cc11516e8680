//! The compression header: its items, its byte layout and its builders.
use crate::bytes::{
    i64_at, i64_le, lemma_i64_read_write, lemma_i64_write_read, lemma_u16_read_write,
    lemma_u16_write_read, lemma_u32_read_write, lemma_u32_write_read, read_i64_le, read_u16_le,
    read_u32_le, u16_at, u16_le, u32_at, u32_le, write_i64_le, write_u16_le, write_u32_le,
};
use crate::error::LasZipError;
use vstd::prelude::*;

verus! {

/// Byte width of the legacy point record (point format 0).
pub const POINT10_SIZE: u16 = 20;

/// Byte width of the extended point record (point format 6).
pub const POINT14_SIZE: u16 = 30;

/// Byte width of a GPS time (an IEEE-754 double).
pub const GPS_TIME_SIZE: u16 = 8;

/// Byte width of an RGB color.
pub const RGB_SIZE: u16 = 6;

/// Byte width of a near-infrared value.
pub const NIR_SIZE: u16 = 2;

/// The kinds of field a LAS point can be split into.
#[derive(Debug, Clone, Copy, PartialEq, Eq, Structural)]
pub enum LazItemType {
    /// Extra bytes, for point formats up to 5.
    Byte(u16),
    /// The legacy point record (point format 0).
    Point10,
    /// GPS time, for point formats up to 5.
    GpsTime,
    /// RGB color, for point formats up to 5.
    RGB12,
    /// The extended point record (point format 6).
    Point14,
    /// RGB color, for point formats 6 and up.
    RGB14,
    /// RGB color and near infrared, for point formats 6 and up.
    RGBNIR14,
    /// Extra bytes, for point formats 6 and up.
    Byte14(u16),
}

impl LazItemType {
    /// The wire code of the item type.
    pub open spec fn spec_code(self) -> u16 {
        match self {
            LazItemType::Byte(_) => 0,
            LazItemType::Point10 => 6,
            LazItemType::GpsTime => 7,
            LazItemType::RGB12 => 8,
            LazItemType::Point14 => 10,
            LazItemType::RGB14 => 11,
            LazItemType::RGBNIR14 => 12,
            LazItemType::Byte14(_) => 14,
        }
    }

    /// The item type of a wire code, the extra-bytes kinds taking `size` as
    /// their count.
    pub open spec fn spec_from_u16(code: u16, size: u16) -> Option<LazItemType> {
        if code == 0 {
            Some(LazItemType::Byte(size))
        } else if code == 6 {
            Some(LazItemType::Point10)
        } else if code == 7 {
            Some(LazItemType::GpsTime)
        } else if code == 8 {
            Some(LazItemType::RGB12)
        } else if code == 10 {
            Some(LazItemType::Point14)
        } else if code == 11 {
            Some(LazItemType::RGB14)
        } else if code == 12 {
            Some(LazItemType::RGBNIR14)
        } else if code == 14 {
            Some(LazItemType::Byte14(size))
        } else {
            None
        }
    }

    /// The byte width of the field.
    pub open spec fn spec_size(self) -> u16 {
        match self {
            LazItemType::Byte(n) => n,
            LazItemType::Point10 => POINT10_SIZE,
            LazItemType::GpsTime => GPS_TIME_SIZE,
            LazItemType::RGB12 => RGB_SIZE,
            LazItemType::Point14 => POINT14_SIZE,
            LazItemType::RGB14 => RGB_SIZE,
            LazItemType::RGBNIR14 => (RGB_SIZE + NIR_SIZE) as u16,
            LazItemType::Byte14(n) => n,
        }
    }

    /// The compression version used when none is chosen.
    pub open spec fn spec_default_version(self) -> u16 {
        match self {
            LazItemType::Byte(_) | LazItemType::Point10 | LazItemType::GpsTime
            | LazItemType::RGB12 => 2,
            _ => 3,
        }
    }

    /// Decodes a wire code; the extra-bytes kinds take `size` as their count.
    pub fn from_u16(item_type: u16, size: u16) -> (r: Option<LazItemType>)
        ensures
            r == Self::spec_from_u16(item_type, size),
    {
        match item_type {
            0 => Some(LazItemType::Byte(size)),
            6 => Some(LazItemType::Point10),
            7 => Some(LazItemType::GpsTime),
            8 => Some(LazItemType::RGB12),
            10 => Some(LazItemType::Point14),
            11 => Some(LazItemType::RGB14),
            12 => Some(LazItemType::RGBNIR14),
            14 => Some(LazItemType::Byte14(size)),
            _ => None,
        }
    }

    /// The wire code of the item type.
    pub fn code(self) -> (r: u16)
        ensures
            r == self.spec_code(),
    {
        match self {
            LazItemType::Byte(_) => 0,
            LazItemType::Point10 => 6,
            LazItemType::GpsTime => 7,
            LazItemType::RGB12 => 8,
            LazItemType::Point14 => 10,
            LazItemType::RGB14 => 11,
            LazItemType::RGBNIR14 => 12,
            LazItemType::Byte14(_) => 14,
        }
    }

    /// The byte width of the field: the count for extra bytes, the record's
    /// width for the others.
    pub fn size(&self) -> (r: u16)
        ensures
            r == self.spec_size(),
    {
        match self {
            LazItemType::Byte(size) => *size,
            LazItemType::Point10 => POINT10_SIZE,
            LazItemType::GpsTime => GPS_TIME_SIZE,
            LazItemType::RGB12 => RGB_SIZE,
            LazItemType::Point14 => POINT14_SIZE,
            LazItemType::RGB14 => RGB_SIZE,
            LazItemType::RGBNIR14 => RGB_SIZE + NIR_SIZE,
            LazItemType::Byte14(size) => *size,
        }
    }

    /// The compression version used when none is chosen.
    pub fn default_version(self) -> (r: u16)
        ensures
            r == self.spec_default_version(),
    {
        match self {
            LazItemType::Byte(_) => 2,
            LazItemType::Point10 => 2,
            LazItemType::GpsTime => 2,
            LazItemType::RGB12 => 2,
            LazItemType::Point14 => 3,
            LazItemType::RGB14 => 3,
            LazItemType::RGBNIR14 => 3,
            LazItemType::Byte14(_) => 3,
        }
    }
}

impl From<LazItemType> for u16 {
    fn from(t: LazItemType) -> (r: u16) {
        t.code()
    }
}

impl vstd::std_specs::convert::FromSpecImpl<LazItemType> for u16 {
    open spec fn obeys_from_spec() -> bool {
        true
    }

    open spec fn from_spec(t: LazItemType) -> u16 {
        t.spec_code()
    }
}

/// One field of a point, with its byte width and the compression version
/// that encodes it.
#[derive(Debug, Clone, Copy, PartialEq, Eq, Structural)]
pub struct LazItem {
    pub(crate) item_type: LazItemType,
    pub(crate) size: u16,
    pub(crate) version: u16,
}

impl LazItem {
    /// Every item is well formed; only this library makes items.
    #[verifier::type_invariant]
    spec fn inv(self) -> bool {
        self.wf()
    }

    /// The item is of type `t`, at its inherent width, encoded with `version`.
    pub open spec fn is_new(self, t: LazItemType, version: u16) -> bool {
        self.spec_item_type() == t && self.spec_size() == t.spec_size() && self.spec_version()
            == version
    }

    /// An extra-bytes item carries its count both in its type and as its size.
    pub open spec fn wf(self) -> bool {
        match self.spec_item_type() {
            LazItemType::Byte(n) => self.spec_size() == n,
            LazItemType::Byte14(n) => self.spec_size() == n,
            _ => true,
        }
    }

    /// The six bytes of the item on the wire: type code, size, version.
    pub open spec fn spec_bytes(self) -> Seq<u8> {
        u16_le(self.spec_item_type().spec_code()) + u16_le(self.spec_size()) + u16_le(
            self.spec_version(),
        )
    }

    pub(crate) fn new(item_type: LazItemType, version: u16) -> (r: LazItem)
        ensures
            r.is_new(item_type, version),
            r.wf(),
    {
        let size = item_type.size();
        LazItem { item_type, size, version }
    }

    /// The kind of field.
    pub closed spec fn spec_item_type(self) -> LazItemType {
        self.item_type
    }

    /// The byte width of the field.
    pub closed spec fn spec_size(self) -> u16 {
        self.size
    }

    /// The compression version that encodes the field.
    pub closed spec fn spec_version(self) -> u16 {
        self.version
    }

    pub fn item_type(&self) -> (r: LazItemType)
        ensures
            r == self.spec_item_type(),
    {
        self.item_type
    }

    pub fn size(&self) -> (r: u16)
        ensures
            r == self.spec_size(),
    {
        self.size
    }

    pub fn version(&self) -> (r: u16)
        ensures
            r == self.spec_version(),
    {
        self.version
    }
}

/// The LAS point formats whose item lists are known.
#[derive(Debug, Clone, Copy, PartialEq, Eq, Structural)]
pub enum PointFormat {
    /// The legacy point record alone.
    Point0,
    /// The legacy point record and GPS time.
    Point1,
    /// The legacy point record and RGB color.
    Point2,
    /// The legacy point record, GPS time and RGB color.
    Point3,
    /// The extended point record alone.
    Point6,
    /// The extended point record and RGB color.
    Point7,
    /// The extended point record, RGB color and near infrared.
    Point8,
}

impl PointFormat {
    /// The LAS point format id.
    pub open spec fn spec_id(self) -> u8 {
        match self {
            PointFormat::Point0 => 0,
            PointFormat::Point1 => 1,
            PointFormat::Point2 => 2,
            PointFormat::Point3 => 3,
            PointFormat::Point6 => 6,
            PointFormat::Point7 => 7,
            PointFormat::Point8 => 8,
        }
    }

    /// The point format of a LAS point format id, where it is a known one.
    pub open spec fn spec_from_id(id: u8) -> Option<PointFormat> {
        if id == 0 {
            Some(PointFormat::Point0)
        } else if id == 1 {
            Some(PointFormat::Point1)
        } else if id == 2 {
            Some(PointFormat::Point2)
        } else if id == 3 {
            Some(PointFormat::Point3)
        } else if id == 6 {
            Some(PointFormat::Point6)
        } else if id == 7 {
            Some(PointFormat::Point7)
        } else if id == 8 {
            Some(PointFormat::Point8)
        } else {
            None
        }
    }

    /// Formats 6 and up are built on the extended point record.
    pub open spec fn is_extended(self) -> bool {
        match self {
            PointFormat::Point6 | PointFormat::Point7 | PointFormat::Point8 => true,
            _ => false,
        }
    }

    /// The compression version a format is encoded with unless told otherwise.
    pub open spec fn spec_default_version(self) -> u16 {
        if self.is_extended() {
            3
        } else {
            2
        }
    }

    /// Legacy formats may be encoded with versions 1 and 2, extended ones
    /// with version 3 only.
    pub open spec fn supports_version(self, version: u16) -> bool {
        if self.is_extended() {
            version == 3
        } else {
            version == 1 || version == 2
        }
    }

    /// The fields of the format, in order, with `n` extra bytes.
    pub open spec fn spec_fields(self, n: u16) -> Seq<LazItemType> {
        let fields = match self {
            PointFormat::Point0 => seq![LazItemType::Point10],
            PointFormat::Point1 => seq![LazItemType::Point10, LazItemType::GpsTime],
            PointFormat::Point2 => seq![LazItemType::Point10, LazItemType::RGB12],
            PointFormat::Point3 => seq![
                LazItemType::Point10,
                LazItemType::GpsTime,
                LazItemType::RGB12,
            ],
            PointFormat::Point6 => seq![LazItemType::Point14],
            PointFormat::Point7 => seq![LazItemType::Point14, LazItemType::RGB14],
            PointFormat::Point8 => seq![LazItemType::Point14, LazItemType::RGBNIR14],
        };
        let extra = if n == 0 {
            Seq::empty()
        } else if self.is_extended() {
            seq![LazItemType::Byte14(n)]
        } else {
            seq![LazItemType::Byte(n)]
        };
        fields + extra
    }

    /// The LAS point format id.
    pub fn id(self) -> (r: u8)
        ensures
            r == self.spec_id(),
    {
        match self {
            PointFormat::Point0 => 0,
            PointFormat::Point1 => 1,
            PointFormat::Point2 => 2,
            PointFormat::Point3 => 3,
            PointFormat::Point6 => 6,
            PointFormat::Point7 => 7,
            PointFormat::Point8 => 8,
        }
    }

    /// The point format of a LAS point format id, where it is a known one.
    pub fn from_id(id: u8) -> (r: Option<PointFormat>)
        ensures
            r == Self::spec_from_id(id),
    {
        match id {
            0 => Some(PointFormat::Point0),
            1 => Some(PointFormat::Point1),
            2 => Some(PointFormat::Point2),
            3 => Some(PointFormat::Point3),
            6 => Some(PointFormat::Point6),
            7 => Some(PointFormat::Point7),
            8 => Some(PointFormat::Point8),
            _ => None,
        }
    }

    fn is_extended_format(self) -> (r: bool)
        ensures
            r == self.is_extended(),
    {
        match self {
            PointFormat::Point6 | PointFormat::Point7 | PointFormat::Point8 => true,
            _ => false,
        }
    }

    /// The item list of the format at `version`, with `num_extra_bytes` extra bytes.
    fn items(self, version: u16, num_extra_bytes: u16) -> (r: Vec<LazItem>)
        ensures
            items_of(r@, self.spec_fields(num_extra_bytes), version),
    {
        let mut items: Vec<LazItem> = Vec::new();
        if self.is_extended_format() {
            items.push(LazItem::new(LazItemType::Point14, version));
        } else {
            items.push(LazItem::new(LazItemType::Point10, version));
        }
        match self {
            PointFormat::Point1 => {
                items.push(LazItem::new(LazItemType::GpsTime, version));
            },
            PointFormat::Point2 => {
                items.push(LazItem::new(LazItemType::RGB12, version));
            },
            PointFormat::Point3 => {
                items.push(LazItem::new(LazItemType::GpsTime, version));
                items.push(LazItem::new(LazItemType::RGB12, version));
            },
            PointFormat::Point7 => {
                items.push(LazItem::new(LazItemType::RGB14, version));
            },
            PointFormat::Point8 => {
                items.push(LazItem::new(LazItemType::RGBNIR14, version));
            },
            _ => {},
        }
        if num_extra_bytes != 0 {
            if self.is_extended_format() {
                items.push(LazItem::new(LazItemType::Byte14(num_extra_bytes), version));
            } else {
                items.push(LazItem::new(LazItemType::Byte(num_extra_bytes), version));
            }
        }
        items
    }
}

/// `items` are the fields `types`, in order, each at its inherent width and
/// encoded with `version`.
pub open spec fn items_of(items: Seq<LazItem>, types: Seq<LazItemType>, version: u16) -> bool {
    items.len() == types.len() && forall|i: int|
        0 <= i < items.len() ==> (#[trigger] items[i]).is_new(types[i], version)
}

/// Every item of `items` is well formed.
pub open spec fn all_wf(items: Seq<LazItem>) -> bool {
    forall|i: int| 0 <= i < items.len() ==> #[trigger] items[i].wf()
}

/// Builds item lists, either for a point format or from chosen item types.
pub struct LazItemRecordBuilder {
    items: Vec<LazItemType>,
}

impl View for LazItemRecordBuilder {
    type V = Seq<LazItemType>;

    closed spec fn view(&self) -> Seq<LazItemType> {
        self.items@
    }
}

impl LazItemRecordBuilder {
    /// The items of `point_format` at the version it defaults to.
    pub fn default_version_of(point_format: PointFormat, num_extra_bytes: u16) -> (r: Vec<
        LazItem,
    >)
        ensures
            items_of(
                r@,
                point_format.spec_fields(num_extra_bytes),
                point_format.spec_default_version(),
            ),
    {
        let version: u16 = if point_format.is_extended_format() {
            3
        } else {
            2
        };
        point_format.items(version, num_extra_bytes)
    }

    fn version_of(point_format: PointFormat, version: u16, num_extra_bytes: u16) -> (r: Result<
        Vec<LazItem>,
        LasZipError,
    >)
        requires
            1 <= version <= 3,
        ensures
            match r {
                Ok(items) => point_format.supports_version(version) && items_of(
                    items@,
                    point_format.spec_fields(num_extra_bytes),
                    version,
                ),
                Err(e) => !point_format.supports_version(version) && e
                    == LasZipError::UnsupportedLazVersion(point_format.spec_id(), version),
            },
    {
        let supported = if point_format.is_extended_format() {
            version == 3
        } else {
            version == 1 || version == 2
        };
        if supported {
            Ok(point_format.items(version, num_extra_bytes))
        } else {
            Err(LasZipError::UnsupportedLazVersion(point_format.id(), version))
        }
    }

    /// The items of `point_format` at version 1, which only legacy formats support.
    pub fn version_1_of(point_format: PointFormat, num_extra_bytes: u16) -> (r: Result<
        Vec<LazItem>,
        LasZipError,
    >)
        ensures
            match r {
                Ok(items) => point_format.supports_version(1) && items_of(
                    items@,
                    point_format.spec_fields(num_extra_bytes),
                    1,
                ),
                Err(e) => !point_format.supports_version(1) && e
                    == LasZipError::UnsupportedLazVersion(point_format.spec_id(), 1),
            },
    {
        Self::version_of(point_format, 1, num_extra_bytes)
    }

    /// The items of `point_format` at version 2, which only legacy formats support.
    pub fn version_2_of(point_format: PointFormat, num_extra_bytes: u16) -> (r: Result<
        Vec<LazItem>,
        LasZipError,
    >)
        ensures
            match r {
                Ok(items) => point_format.supports_version(2) && items_of(
                    items@,
                    point_format.spec_fields(num_extra_bytes),
                    2,
                ),
                Err(e) => !point_format.supports_version(2) && e
                    == LasZipError::UnsupportedLazVersion(point_format.spec_id(), 2),
            },
    {
        Self::version_of(point_format, 2, num_extra_bytes)
    }

    /// The items of `point_format` at version 3, which only extended formats support.
    pub fn version_3_of(point_format: PointFormat, num_extra_bytes: u16) -> (r: Result<
        Vec<LazItem>,
        LasZipError,
    >)
        ensures
            match r {
                Ok(items) => point_format.supports_version(3) && items_of(
                    items@,
                    point_format.spec_fields(num_extra_bytes),
                    3,
                ),
                Err(e) => !point_format.supports_version(3) && e
                    == LasZipError::UnsupportedLazVersion(point_format.spec_id(), 3),
            },
    {
        Self::version_of(point_format, 3, num_extra_bytes)
    }

    /// The default items of the point format with LAS id `point_format_id`.
    pub fn default_for_point_format_id(point_format_id: u8, num_extra_bytes: u16) -> (r: Result<
        Vec<LazItem>,
        LasZipError,
    >)
        ensures
            match PointFormat::spec_from_id(point_format_id) {
                Some(f) => r matches Ok(items) && items_of(
                    items@,
                    f.spec_fields(num_extra_bytes),
                    f.spec_default_version(),
                ),
                None => r == Err::<Vec<LazItem>, LasZipError>(
                    LasZipError::UnsupportedPointFormat(point_format_id),
                ),
            },
    {
        match PointFormat::from_id(point_format_id) {
            Some(f) => Ok(Self::default_version_of(f, num_extra_bytes)),
            None => Err(LasZipError::UnsupportedPointFormat(point_format_id)),
        }
    }

    /// A builder without any item.
    pub fn new() -> (r: LazItemRecordBuilder)
        ensures
            r@ == Seq::<LazItemType>::empty(),
    {
        LazItemRecordBuilder { items: Vec::new() }
    }

    /// Appends an item type.
    pub fn add_item(self, item_type: LazItemType) -> (r: LazItemRecordBuilder)
        ensures
            r@ == self@.push(item_type),
    {
        let mut builder = self;
        builder.items.push(item_type);
        builder
    }

    /// One item per added type, in order, each at its inherent width and
    /// its default version.
    pub fn build(&self) -> (r: Vec<LazItem>)
        ensures
            r@.len() == self@.len(),
            forall|i: int|
                0 <= i < r@.len() ==> (#[trigger] r@[i]).is_new(
                    self@[i],
                    self@[i].spec_default_version(),
                ),
    {
        let mut out: Vec<LazItem> = Vec::new();
        let mut i: usize = 0;
        while i < self.items.len()
            invariant
                i <= self.items@.len(),
                out@.len() == i,
                forall|j: int|
                    0 <= j < i ==> #[trigger] out@[j].is_new(
                        self.items@[j],
                        self.items@[j].spec_default_version(),
                    ),
            decreases self.items@.len() - i,
        {
            let t = self.items[i];
            out.push(LazItem::new(t, t.default_version()));
            i = i + 1;
        }
        out
    }
}

/// Points per chunk when no chunk size is chosen.
pub const DEFAULT_CHUNK_SIZE: u32 = 50000;

/// The chunk size that marks chunks of variable size.
pub const VARIABLE_CHUNK_SIZE: u32 = 0xFFFF_FFFF;

/// The byte length of a header's fixed part, item count included.
pub const HEAD_LEN: usize = 34;

/// How the compressed points are organised.
#[derive(Debug, Clone, Copy, PartialEq, Eq, Structural)]
pub enum CompressorType {
    /// No compression.
    NoCompression,
    /// One chunk holding every point.
    PointWise,
    /// Chunks of `chunk_size` points each.
    PointWiseChunked,
    /// Chunks whose point fields are stored in separate layers.
    LayeredChunked,
}

impl CompressorType {
    /// The wire code of the compressor type.
    pub open spec fn spec_code(self) -> u16 {
        match self {
            CompressorType::NoCompression => 0,
            CompressorType::PointWise => 1,
            CompressorType::PointWiseChunked => 2,
            CompressorType::LayeredChunked => 3,
        }
    }

    /// The compressor type of a wire code, where it is a known one.
    pub open spec fn spec_from_u16(t: u16) -> Option<CompressorType> {
        if t == 0 {
            Some(CompressorType::NoCompression)
        } else if t == 1 {
            Some(CompressorType::PointWise)
        } else if t == 2 {
            Some(CompressorType::PointWiseChunked)
        } else if t == 3 {
            Some(CompressorType::LayeredChunked)
        } else {
            None
        }
    }

    /// Versions 1 and 2 compress point-wise in chunks, 3 and 4 in layers.
    pub open spec fn spec_from_item_version(v: u16) -> Option<CompressorType> {
        if v == 1 || v == 2 {
            Some(CompressorType::PointWiseChunked)
        } else if v == 3 || v == 4 {
            Some(CompressorType::LayeredChunked)
        } else {
            None
        }
    }

    /// Decodes a wire code.
    pub fn from_u16(t: u16) -> (r: Option<CompressorType>)
        ensures
            r == Self::spec_from_u16(t),
    {
        match t {
            0 => Some(CompressorType::NoCompression),
            1 => Some(CompressorType::PointWise),
            2 => Some(CompressorType::PointWiseChunked),
            3 => Some(CompressorType::LayeredChunked),
            _ => None,
        }
    }

    /// The compressor type that items of version `item_version` call for.
    pub fn from_item_version(item_version: u16) -> (r: Option<CompressorType>)
        ensures
            r == Self::spec_from_item_version(item_version),
    {
        match item_version {
            1 | 2 => Some(CompressorType::PointWiseChunked),
            3 | 4 => Some(CompressorType::LayeredChunked),
            _ => None,
        }
    }

    /// The wire code of the compressor type.
    pub fn code(self) -> (r: u16)
        ensures
            r == self.spec_code(),
    {
        match self {
            CompressorType::NoCompression => 0,
            CompressorType::PointWise => 1,
            CompressorType::PointWiseChunked => 2,
            CompressorType::LayeredChunked => 3,
        }
    }
}

impl Default for CompressorType {
    fn default() -> (r: CompressorType)
        ensures
            r == CompressorType::PointWiseChunked,
    {
        CompressorType::PointWiseChunked
    }
}

/// The LASzip version stamped into the header.
#[derive(Debug, Clone, Copy, PartialEq, Eq, Structural)]
struct Version {
    major: u8,
    minor: u8,
    revision: u16,
}

impl Version {
    /// The version this library stamps: 2.2.0.
    fn stamp() -> (r: Version)
        ensures
            r == (Version { major: 2, minor: 2, revision: 0 }),
    {
        Version { major: 2, minor: 2, revision: 0 }
    }
}

/// The compression header: what a compressed point is made of and how
/// points are grouped into chunks.
#[derive(Debug, Clone)]
pub struct LazVlr {
    compressor: CompressorType,
    /// 0 is the arithmetic coder, the only one defined.
    coder: u16,
    version: Version,
    options: u32,
    /// Points per chunk, or `VARIABLE_CHUNK_SIZE`.
    chunk_size: u32,
    /// -1 when unused.
    number_of_special_evlrs: i64,
    /// -1 when unused.
    offset_to_special_evlrs: i64,
    items: Vec<LazItem>,
}

/// The wire bytes of a list of items, one after the other.
pub open spec fn items_bytes(items: Seq<LazItem>) -> Seq<u8>
    decreases items.len(),
{
    if items.len() == 0 {
        Seq::empty()
    } else {
        items_bytes(items.drop_last()) + items.last().spec_bytes()
    }
}

/// The sum of the sizes of the items.
pub open spec fn items_sum(items: Seq<LazItem>) -> int
    decreases items.len(),
{
    if items.len() == 0 {
        0
    } else {
        items_sum(items.drop_last()) + items.last().spec_size()
    }
}

/// The first error met while decoding the items from the `i`-th on, of
/// the `n` that the header announces.
pub open spec fn items_decode_error(s: Seq<u8>, n: int, i: int) -> Option<LasZipError>
    decreases n - i,
{
    if i >= n {
        None
    } else {
        let p = 34 + 6 * i;
        if s.len() < p + 4 {
            Some(LasZipError::UnexpectedEof)
        } else if LazItemType::spec_from_u16(u16_at(s, p), u16_at(s, p + 2)) is None {
            Some(LasZipError::UnknownLazItem(u16_at(s, p)))
        } else if s.len() < p + 6 {
            Some(LasZipError::UnexpectedEof)
        } else {
            items_decode_error(s, n, i + 1)
        }
    }
}

/// The first error met while decoding a header from `s`, in the order of
/// its fields; `None` where `s` starts with a header.
pub open spec fn decode_error(s: Seq<u8>) -> Option<LasZipError> {
    if s.len() < 2 {
        Some(LasZipError::UnexpectedEof)
    } else if CompressorType::spec_from_u16(u16_at(s, 0)) is None {
        Some(LasZipError::UnknownCompressorType(u16_at(s, 0)))
    } else if s.len() < 34 {
        Some(LasZipError::UnexpectedEof)
    } else {
        items_decode_error(s, u16_at(s, 32) as int, 0)
    }
}

impl LazVlr {
    /// The user id of the header's record.
    pub const USER_ID: &'static str = "laszip encoded";

    /// The record id of the header's record.
    pub const RECORD_ID: u16 = 22204;

    /// The description of the header's record.
    pub const DESCRIPTION: &'static str = "https://laszip.org";

    /// At most as many items as the count field holds, each well formed.
    pub open spec fn wf(self) -> bool {
        self.spec_items().len() <= 0xFFFF && all_wf(self.spec_items())
    }

    pub closed spec fn spec_compressor(self) -> CompressorType {
        self.compressor
    }

    pub closed spec fn spec_coder(self) -> u16 {
        self.coder
    }

    pub closed spec fn spec_version_major(self) -> u8 {
        self.version.major
    }

    pub closed spec fn spec_version_minor(self) -> u8 {
        self.version.minor
    }

    pub closed spec fn spec_version_revision(self) -> u16 {
        self.version.revision
    }

    pub closed spec fn spec_options(self) -> u32 {
        self.options
    }

    pub closed spec fn spec_chunk_size(self) -> u32 {
        self.chunk_size
    }

    pub closed spec fn spec_number_of_special_evlrs(self) -> i64 {
        self.number_of_special_evlrs
    }

    pub closed spec fn spec_offset_to_special_evlrs(self) -> i64 {
        self.offset_to_special_evlrs
    }

    pub closed spec fn spec_items(self) -> Seq<LazItem> {
        self.items@
    }

    /// All fields equal, the items compared by value.
    pub open spec fn same_as(self, other: LazVlr) -> bool {
        self.spec_compressor() == other.spec_compressor() && self.spec_coder()
            == other.spec_coder() && self.spec_version_major() == other.spec_version_major()
            && self.spec_version_minor() == other.spec_version_minor()
            && self.spec_version_revision() == other.spec_version_revision() && self.spec_options()
            == other.spec_options() && self.spec_chunk_size() == other.spec_chunk_size()
            && self.spec_number_of_special_evlrs() == other.spec_number_of_special_evlrs()
            && self.spec_offset_to_special_evlrs() == other.spec_offset_to_special_evlrs()
            && self.spec_items() == other.spec_items()
    }

    /// The fixed part of the header on the wire: the 34 bytes up to and
    /// including the item count.
    pub open spec fn head_bytes(self) -> Seq<u8> {
        u16_le(self.spec_compressor().spec_code()) + u16_le(self.spec_coder()) + seq![
            self.spec_version_major(),
            self.spec_version_minor(),
        ] + u16_le(self.spec_version_revision()) + u32_le(self.spec_options()) + u32_le(
            self.spec_chunk_size(),
        ) + i64_le(self.spec_number_of_special_evlrs()) + i64_le(
            self.spec_offset_to_special_evlrs(),
        ) + u16_le(self.spec_items().len() as u16)
    }

    /// The header on the wire.
    pub open spec fn spec_bytes(self) -> Seq<u8> {
        self.head_bytes() + items_bytes(self.spec_items())
    }

    /// The header that the builders make from `items`, with chunks of
    /// `chunk_size` points: version 2.2.0, coder 0, no options, no special
    /// extended records.
    pub open spec fn built_from(self, items: Seq<LazItem>, chunk_size: u32) -> bool {
        items.len() > 0 && CompressorType::spec_from_item_version(items[0].spec_version()) == Some(
            self.spec_compressor(),
        ) && self.spec_coder() == 0 && self.spec_version_major() == 2
            && self.spec_version_minor() == 2 && self.spec_version_revision() == 0
            && self.spec_options() == 0 && self.spec_chunk_size() == chunk_size
            && self.spec_number_of_special_evlrs() == -1 && self.spec_offset_to_special_evlrs()
            == -1 && self.spec_items() == items
    }

    /// `s` starts with the wire bytes of this well-formed header.
    pub open spec fn decoded_from(self, s: Seq<u8>) -> bool {
        self.wf() && self.spec_bytes().len() <= s.len() && self.spec_bytes() == s.subrange(
            0,
            self.spec_bytes().len() as int,
        )
    }
}

/// Why an item list cannot make a header: it is empty, or its first item's
/// version maps to no compressor type.
pub open spec fn items_error(items: Seq<LazItem>) -> Option<LasZipError> {
    if items.len() == 0 {
        Some(LasZipError::NoLazItems)
    } else if CompressorType::spec_from_item_version(items[0].spec_version()) is None {
        Some(LasZipError::UnknownLazItemVersion(items[0].spec_version()))
    } else {
        None
    }
}

proof fn lemma_items_bytes_push(items: Seq<LazItem>, item: LazItem)
    ensures
        items_bytes(items.push(item)) == items_bytes(items) + item.spec_bytes(),
{
    assert(items.push(item).drop_last() =~= items);
}

proof fn lemma_items_sum_bound(items: Seq<LazItem>)
    ensures
        0 <= items_sum(items) <= 0xFFFF * items.len(),
    decreases items.len(),
{
    if items.len() > 0 {
        lemma_items_sum_bound(items.drop_last());
    }
}

proof fn lemma_items_sum_push(items: Seq<LazItem>, item: LazItem)
    ensures
        items_sum(items.push(item)) == items_sum(items) + item.spec_size(),
{
    assert(items.push(item).drop_last() =~= items);
}

/// Reads the item count at offset 32 and the items after it.
fn read_laz_items_from(src: &[u8]) -> (r: Result<Vec<LazItem>, LasZipError>)
    requires
        src@.len() >= 34,
    ensures
        match r {
            Ok(items) => items_decode_error(src@, u16_at(src@, 32) as int, 0) is None
                && items@.len() == u16_at(src@, 32) && all_wf(items@) && 34 + 6 * items@.len()
                <= src@.len() && items_bytes(items@) == src@.subrange(
                34,
                34 + 6 * items@.len() as int,
            ),
            Err(e) => items_decode_error(src@, u16_at(src@, 32) as int, 0) == Some(e),
        },
{
    let num_items = read_u16_le(src, 32);
    let n = num_items as usize;
    let mut items: Vec<LazItem> = Vec::new();
    let mut i: usize = 0;
    while i < n
        invariant
            n == u16_at(src@, 32),
            i <= n,
            34 + 6 * i <= src@.len(),
            items@.len() == i,
            all_wf(items@),
            items_bytes(items@) == src@.subrange(34, 34 + 6 * i),
            items_decode_error(src@, n as int, 0) == items_decode_error(src@, n as int, i as int),
        decreases n - i,
    {
        let p = 34 + 6 * i;
        if src.len() < p + 4 {
            return Err(LasZipError::UnexpectedEof);
        }
        let code = read_u16_le(src, p);
        let size = read_u16_le(src, p + 2);
        let item_type = match LazItemType::from_u16(code, size) {
            Some(t) => t,
            None => {
                return Err(LasZipError::UnknownLazItem(code));
            },
        };
        if src.len() < p + 6 {
            return Err(LasZipError::UnexpectedEof);
        }
        let version = read_u16_le(src, p + 4);
        let item = LazItem { item_type, size, version };
        proof {
            lemma_u16_write_read(src@, p as int);
            lemma_u16_write_read(src@, p + 2);
            lemma_u16_write_read(src@, p + 4);
            assert(item.spec_bytes() =~= src@.subrange(p as int, p + 6));
            lemma_items_bytes_push(items@, item);
            assert(src@.subrange(34, p as int) + src@.subrange(p as int, p + 6) =~= src@.subrange(
                34,
                p + 6,
            ));
        }
        items.push(item);
        i = i + 1;
    }
    Ok(items)
}

impl LazVlr {
    /// A header over `items`, with fixed chunks of the default size; its
    /// compressor type follows from the first item's version.
    pub fn from_laz_items(items: Vec<LazItem>) -> (r: Result<LazVlr, LasZipError>)
        ensures
            match r {
                Ok(v) => items_error(items@) is None && v.built_from(items@, DEFAULT_CHUNK_SIZE),
                Err(e) => items_error(items@) == Some(e),
            },
    {
        if items.len() == 0 {
            return Err(LasZipError::NoLazItems);
        }
        let first_version = items[0].version;
        let compressor = match CompressorType::from_item_version(first_version) {
            Some(c) => c,
            None => {
                return Err(LasZipError::UnknownLazItemVersion(first_version));
            },
        };
        Ok(
            LazVlr {
                compressor,
                coder: 0,
                version: Version::stamp(),
                options: 0,
                chunk_size: DEFAULT_CHUNK_SIZE,
                number_of_special_evlrs: -1,
                offset_to_special_evlrs: -1,
                items,
            },
        )
    }

    /// Decodes a header from the start of `src`; bytes after it are ignored.
    pub fn read_from(src: &[u8]) -> (r: Result<LazVlr, LasZipError>)
        ensures
            match r {
                Ok(v) => decode_error(src@) is None && v.decoded_from(src@),
                Err(e) => decode_error(src@) == Some(e),
            },
    {
        if src.len() < 2 {
            return Err(LasZipError::UnexpectedEof);
        }
        let compressor_type = read_u16_le(src, 0);
        let compressor = match CompressorType::from_u16(compressor_type) {
            Some(c) => c,
            None => {
                return Err(LasZipError::UnknownCompressorType(compressor_type));
            },
        };
        if src.len() < 34 {
            return Err(LasZipError::UnexpectedEof);
        }
        let coder = read_u16_le(src, 2);
        let major = src[4];
        let minor = src[5];
        let revision = read_u16_le(src, 6);
        let options = read_u32_le(src, 8);
        let chunk_size = read_u32_le(src, 12);
        let number_of_special_evlrs = read_i64_le(src, 16);
        let offset_to_special_evlrs = read_i64_le(src, 24);
        let items = match read_laz_items_from(src) {
            Ok(items) => items,
            Err(e) => {
                return Err(e);
            },
        };
        let vlr = LazVlr {
            compressor,
            coder,
            version: Version { major, minor, revision },
            options,
            chunk_size,
            number_of_special_evlrs,
            offset_to_special_evlrs,
            items,
        };
        proof {
            let s = src@;
            lemma_u16_write_read(s, 0);
            lemma_u16_write_read(s, 2);
            lemma_u16_write_read(s, 6);
            lemma_u32_write_read(s, 8);
            lemma_u32_write_read(s, 12);
            lemma_i64_write_read(s, 16);
            lemma_i64_write_read(s, 24);
            lemma_u16_write_read(s, 32);
            assert(vlr.head_bytes() =~= s.subrange(0, 34));
            assert(s.subrange(0, 34) + s.subrange(34, 34 + 6 * vlr.items@.len() as int) =~= s.subrange(
                0,
                34 + 6 * vlr.items@.len() as int,
            ));
        }
        Ok(vlr)
    }

    /// The byte length of the header whose first 34 bytes are `head`:
    /// those 34 and six for each item that the count announces.
    pub fn header_len(head: &[u8]) -> (r: usize)
        requires
            head@.len() >= HEAD_LEN,
        ensures
            r == 34 + 6 * u16_at(head@, 32),
    {
        let n = read_u16_le(head, 32);
        HEAD_LEN + 6 * (n as usize)
    }

    /// Decodes a header from the start of `buffer`.
    pub fn from_buffer(buffer: &[u8]) -> (r: Result<LazVlr, LasZipError>)
        ensures
            match r {
                Ok(v) => decode_error(buffer@) is None && v.decoded_from(buffer@),
                Err(e) => decode_error(buffer@) == Some(e),
            },
    {
        Self::read_from(buffer)
    }

    /// Appends the header's wire bytes to `dst`. The item count is written
    /// on two bytes, so a header has at most 65 535 items.
    pub fn write_to(&self, dst: &mut Vec<u8>)
        requires
            self.spec_items().len() <= 0xFFFF,
        ensures
            final(dst)@ == old(dst)@ + self.spec_bytes(),
            self.wf(),
    {
        let ghost start = dst@;
        write_u16_le(dst, self.compressor.code());
        write_u16_le(dst, self.coder);
        dst.push(self.version.major);
        dst.push(self.version.minor);
        write_u16_le(dst, self.version.revision);
        write_u32_le(dst, self.options);
        write_u32_le(dst, self.chunk_size);
        write_i64_le(dst, self.number_of_special_evlrs);
        write_i64_le(dst, self.offset_to_special_evlrs);
        write_u16_le(dst, self.items.len() as u16);
        assert(dst@ =~= start + self.head_bytes());
        let mut i: usize = 0;
        while i < self.items.len()
            invariant
                i <= self.items@.len(),
                dst@ == start + self.head_bytes() + items_bytes(self.items@.subrange(0, i as int)),
                forall|j: int| 0 <= j < i ==> #[trigger] self.items@[j].wf(),
            decreases self.items@.len() - i,
        {
            let item = self.items[i];
            proof {
                use_type_invariant(&item);
            }
            write_u16_le(dst, item.item_type.code());
            write_u16_le(dst, item.size);
            write_u16_le(dst, item.version);
            proof {
                assert(self.items@.subrange(0, i + 1) =~= self.items@.subrange(0, i as int).push(
                    item,
                ));
                lemma_items_bytes_push(self.items@.subrange(0, i as int), item);
            }
            i = i + 1;
            assert(dst@ =~= start + self.head_bytes() + items_bytes(
                self.items@.subrange(0, i as int),
            ));
        }
        assert(self.items@.subrange(0, i as int) =~= self.items@);
    }

    /// How the compressed points are organised.
    pub fn compressor(&self) -> (r: CompressorType)
        ensures
            r == self.spec_compressor(),
    {
        self.compressor
    }

    /// The entropy coder; 0 is the arithmetic coder.
    pub fn coder(&self) -> (r: u16)
        ensures
            r == self.spec_coder(),
    {
        self.coder
    }

    /// The stamped version: major, minor, revision.
    pub fn version(&self) -> (r: (u8, u8, u16))
        ensures
            r == (self.spec_version_major(), self.spec_version_minor(), self.spec_version_revision()),
    {
        (self.version.major, self.version.minor, self.version.revision)
    }

    /// The reserved options word.
    pub fn options(&self) -> (r: u32)
        ensures
            r == self.spec_options(),
    {
        self.options
    }

    /// The number of special extended records; -1 when unused.
    pub fn number_of_special_evlrs(&self) -> (r: i64)
        ensures
            r == self.spec_number_of_special_evlrs(),
    {
        self.number_of_special_evlrs
    }

    /// The offset of the special extended records; -1 when unused.
    pub fn offset_to_special_evlrs(&self) -> (r: i64)
        ensures
            r == self.spec_offset_to_special_evlrs(),
    {
        self.offset_to_special_evlrs
    }

    /// Whether chunks hold a variable number of points.
    pub fn uses_variable_size_chunks(&self) -> (r: bool)
        ensures
            r == (self.spec_chunk_size() == VARIABLE_CHUNK_SIZE),
    {
        self.chunk_size == VARIABLE_CHUNK_SIZE
    }

    /// The number of points per chunk; meaningful only for fixed chunks.
    pub fn chunk_size(&self) -> (r: u32)
        ensures
            r == self.spec_chunk_size(),
    {
        self.chunk_size
    }

    /// The items a point is made of, in order.
    pub fn items(&self) -> (r: &Vec<LazItem>)
        ensures
            r@ == self.spec_items(),
    {
        &self.items
    }

    /// The sum of the item sizes, the byte width of an uncompressed point;
    /// `u64::MAX` where the sum does not fit.
    pub fn items_size(&self) -> (r: u64)
        ensures
            r == (if items_sum(self.spec_items()) <= u64::MAX {
                items_sum(self.spec_items())
            } else {
                u64::MAX as int
            }),
            self.wf() ==> r == items_sum(self.spec_items()),
    {
        proof {
            lemma_items_sum_bound(self.items@);
        }
        let mut sum: u64 = 0;
        let mut i: usize = 0;
        while i < self.items.len()
            invariant
                i <= self.items@.len(),
                0 <= items_sum(self.items@.subrange(0, i as int)),
                sum == (if items_sum(self.items@.subrange(0, i as int)) <= u64::MAX {
                    items_sum(self.items@.subrange(0, i as int))
                } else {
                    u64::MAX as int
                }),
            decreases self.items@.len() - i,
        {
            let item = self.items[i];
            sum = sum.saturating_add(item.size as u64);
            proof {
                assert(self.items@.subrange(0, i + 1) =~= self.items@.subrange(0, i as int).push(
                    item,
                ));
                lemma_items_sum_push(self.items@.subrange(0, i as int), item);
            }
            i = i + 1;
        }
        assert(self.items@.subrange(0, i as int) =~= self.items@);
        sum
    }

    /// The number of bytes that one decompressed chunk of fixed size holds.
    pub(crate) fn num_bytes_in_decompressed_chunk(&self) -> (r: u64)
        requires
            self.wf(),
        ensures
            r == self.spec_chunk_size() * items_sum(self.spec_items()),
    {
        let size = self.items_size();
        proof {
            lemma_items_sum_bound(self.items@);
            assert(items_sum(self.items@) <= 0xFFFF * 0xFFFF) by (nonlinear_arith)
                requires
                    items_sum(self.items@) <= 0xFFFF * self.items@.len(),
                    self.items@.len() <= 0xFFFF,
            ;
            assert(self.chunk_size * size <= 0xFFFF_FFFF * (0xFFFF * 0xFFFF)) by (nonlinear_arith)
                requires
                    self.chunk_size <= 0xFFFF_FFFF,
                    size <= 0xFFFF * 0xFFFF,
            ;
        }
        self.chunk_size as u64 * size
    }
}

impl PartialEq for LazVlr {
    fn eq(&self, other: &LazVlr) -> (r: bool) {
        if !(self.compressor == other.compressor && self.coder == other.coder && self.version
            == other.version && self.options == other.options && self.chunk_size
            == other.chunk_size && self.number_of_special_evlrs == other.number_of_special_evlrs
            && self.offset_to_special_evlrs == other.offset_to_special_evlrs && self.items.len()
            == other.items.len()) {
            return false;
        }
        let mut i: usize = 0;
        while i < self.items.len()
            invariant
                i <= self.items@.len(),
                self.items@.len() == other.items@.len(),
                forall|j: int| 0 <= j < i ==> self.items@[j] == other.items@[j],
            decreases self.items@.len() - i,
        {
            if self.items[i] != other.items[i] {
                return false;
            }
            i = i + 1;
        }
        assert(self.items@ =~= other.items@);
        true
    }
}

impl Eq for LazVlr {}

impl vstd::std_specs::cmp::PartialEqSpecImpl for LazVlr {
    open spec fn obeys_eq_spec() -> bool {
        true
    }

    open spec fn eq_spec(&self, other: &LazVlr) -> bool {
        self.same_as(*other)
    }
}

/// Assembles a header from items, or from a point format, and a chunk size.
pub struct LazVlrBuilder {
    items: Vec<LazItem>,
    chunk_size: u32,
}

impl Default for LazVlrBuilder {
    fn default() -> (r: LazVlrBuilder)
        ensures
            r.spec_items() == Seq::<LazItem>::empty(),
            r.spec_chunk_size() == DEFAULT_CHUNK_SIZE,
    {
        LazVlrBuilder { items: Vec::new(), chunk_size: DEFAULT_CHUNK_SIZE }
    }
}

impl LazVlrBuilder {
    pub closed spec fn spec_items(self) -> Seq<LazItem> {
        self.items@
    }

    pub closed spec fn spec_chunk_size(self) -> u32 {
        self.chunk_size
    }

    /// A builder over `laz_items`, with the default chunk size.
    pub fn new(laz_items: Vec<LazItem>) -> (r: LazVlrBuilder)
        ensures
            r.spec_items() == laz_items@,
            r.spec_chunk_size() == DEFAULT_CHUNK_SIZE,
    {
        LazVlrBuilder { items: laz_items, chunk_size: DEFAULT_CHUNK_SIZE }
    }

    /// Takes the default items of the point format with LAS id
    /// `point_format_id`, with `num_extra_bytes` extra bytes.
    pub fn with_point_format(self, point_format_id: u8, num_extra_bytes: u16) -> (r: Result<
        LazVlrBuilder,
        LasZipError,
    >)
        ensures
            match PointFormat::spec_from_id(point_format_id) {
                Some(f) => r matches Ok(b) && items_of(
                    b.spec_items(),
                    f.spec_fields(num_extra_bytes),
                    f.spec_default_version(),
                ) && b.spec_chunk_size() == self.spec_chunk_size(),
                None => r matches Err(e) && e == LasZipError::UnsupportedPointFormat(
                    point_format_id,
                ),
            },
    {
        match LazItemRecordBuilder::default_for_point_format_id(point_format_id, num_extra_bytes) {
            Ok(items) => Ok(LazVlrBuilder { items, chunk_size: self.chunk_size }),
            Err(e) => Err(e),
        }
    }

    /// Takes `laz_items` as the items.
    pub fn with_laz_items(self, laz_items: Vec<LazItem>) -> (r: LazVlrBuilder)
        ensures
            r.spec_items() == laz_items@,
            r.spec_chunk_size() == self.spec_chunk_size(),
    {
        LazVlrBuilder { items: laz_items, chunk_size: self.chunk_size }
    }

    /// Chunks of `chunk_size` points each.
    pub fn with_fixed_chunk_size(self, chunk_size: u32) -> (r: LazVlrBuilder)
        ensures
            r.spec_items() == self.spec_items(),
            r.spec_chunk_size() == chunk_size,
    {
        LazVlrBuilder { items: self.items, chunk_size }
    }

    /// Chunks of variable size.
    pub fn with_variable_chunk_size(self) -> (r: LazVlrBuilder)
        ensures
            r.spec_items() == self.spec_items(),
            r.spec_chunk_size() == VARIABLE_CHUNK_SIZE,
    {
        LazVlrBuilder { items: self.items, chunk_size: VARIABLE_CHUNK_SIZE }
    }

    /// The header over the items, with the chosen chunk size.
    pub fn build(self) -> (r: Result<LazVlr, LasZipError>)
        ensures
            match r {
                Ok(v) => items_error(self.spec_items()) is None && v.built_from(
                    self.spec_items(),
                    self.spec_chunk_size(),
                ),
                Err(e) => items_error(self.spec_items()) == Some(e),
            },
    {
        let chunk_size = self.chunk_size;
        match LazVlr::from_laz_items(self.items) {
            Ok(vlr) => {
                let mut vlr = vlr;
                vlr.chunk_size = chunk_size;
                Ok(vlr)
            },
            Err(e) => Err(e),
        }
    }

    /// Chunks of `chunk_size` points each; the same as `with_fixed_chunk_size`.
    pub fn with_chunk_size(self, chunk_size: u32) -> (r: LazVlrBuilder)
        ensures
            r.spec_items() == self.spec_items(),
            r.spec_chunk_size() == chunk_size,
    {
        self.with_fixed_chunk_size(chunk_size)
    }

    /// A builder over `laz_items`; the same as `new`.
    pub fn from_laz_items(laz_items: Vec<LazItem>) -> (r: LazVlrBuilder)
        ensures
            r.spec_items() == laz_items@,
            r.spec_chunk_size() == DEFAULT_CHUNK_SIZE,
    {
        Self::new(laz_items)
    }
}

proof fn lemma_items_bytes_len(items: Seq<LazItem>)
    ensures
        items_bytes(items).len() == 6 * items.len(),
    decreases items.len(),
{
    if items.len() > 0 {
        lemma_items_bytes_len(items.drop_last());
    }
}

proof fn lemma_items_bytes_at(items: Seq<LazItem>, i: int)
    requires
        0 <= i < items.len(),
    ensures
        items_bytes(items).subrange(6 * i, 6 * i + 6) == items[i].spec_bytes(),
    decreases items.len(),
{
    let prefix = items.drop_last();
    lemma_items_bytes_len(prefix);
    if i == items.len() - 1 {
        assert(items_bytes(items).subrange(6 * i, 6 * i + 6) =~= items.last().spec_bytes());
    } else {
        lemma_items_bytes_at(prefix, i);
        assert(items_bytes(items).subrange(6 * i, 6 * i + 6) =~= items_bytes(prefix).subrange(
            6 * i,
            6 * i + 6,
        ));
    }
}

proof fn lemma_u16_le_injective(a: u16, b: u16)
    requires
        u16_le(a) == u16_le(b),
    ensures
        a == b,
{
    lemma_u16_read_write(a);
    lemma_u16_read_write(b);
}

proof fn lemma_u32_le_injective(a: u32, b: u32)
    requires
        u32_le(a) == u32_le(b),
    ensures
        a == b,
{
    lemma_u32_read_write(a);
    lemma_u32_read_write(b);
}

proof fn lemma_i64_le_injective(a: i64, b: i64)
    requires
        i64_le(a) == i64_le(b),
    ensures
        a == b,
{
    lemma_i64_read_write(a);
    lemma_i64_read_write(b);
}

/// The integer read at `k` is `x` where the two bytes there are those of `x`.
proof fn lemma_u16_at_of(s: Seq<u8>, k: int, x: u16)
    requires
        0 <= k,
        k + 2 <= s.len(),
        s.subrange(k, k + 2) == u16_le(x),
    ensures
        u16_at(s, k) == x,
{
    assert(s[k] == s.subrange(k, k + 2)[0]);
    assert(s[k + 1] == s.subrange(k, k + 2)[1]);
    lemma_u16_read_write(x);
}

proof fn lemma_item_bytes_injective(a: LazItem, b: LazItem)
    requires
        a.wf(),
        b.wf(),
        a.spec_bytes() == b.spec_bytes(),
    ensures
        a == b,
{
    let (x, y) = (a.spec_bytes(), b.spec_bytes());
    assert(x.subrange(0, 2) =~= u16_le(a.item_type.spec_code()));
    assert(y.subrange(0, 2) =~= u16_le(b.item_type.spec_code()));
    assert(x.subrange(2, 4) =~= u16_le(a.size));
    assert(y.subrange(2, 4) =~= u16_le(b.size));
    assert(x.subrange(4, 6) =~= u16_le(a.version));
    assert(y.subrange(4, 6) =~= u16_le(b.version));
    lemma_u16_le_injective(a.item_type.spec_code(), b.item_type.spec_code());
    lemma_u16_le_injective(a.size, b.size);
    lemma_u16_le_injective(a.version, b.version);
}

proof fn lemma_items_bytes_injective(a: Seq<LazItem>, b: Seq<LazItem>)
    requires
        a.len() == b.len(),
        all_wf(a),
        all_wf(b),
        items_bytes(a) == items_bytes(b),
    ensures
        a == b,
    decreases a.len(),
{
    if a.len() > 0 {
        let (pa, pb) = (a.drop_last(), b.drop_last());
        lemma_items_bytes_len(pa);
        lemma_items_bytes_len(pb);
        let n = 6 * pa.len() as int;
        assert(items_bytes(pa) =~= items_bytes(a).subrange(0, n));
        assert(items_bytes(pb) =~= items_bytes(b).subrange(0, n));
        assert(a.last().spec_bytes() =~= items_bytes(a).subrange(n, n + 6));
        assert(b.last().spec_bytes() =~= items_bytes(b).subrange(n, n + 6));
        assert(a.last().wf() && b.last().wf());
        lemma_item_bytes_injective(a.last(), b.last());
        lemma_items_bytes_injective(pa, pb);
        assert(a =~= pa.push(a.last()));
        assert(b =~= pb.push(b.last()));
    }
}

proof fn lemma_items_decode_ok(v: LazVlr, i: int)
    requires
        v.wf(),
        0 <= i <= v.items@.len(),
    ensures
        items_decode_error(v.spec_bytes(), v.items@.len() as int, i) is None,
    decreases v.items@.len() - i,
{
    let s = v.spec_bytes();
    let n = v.items@.len() as int;
    lemma_items_bytes_len(v.items@);
    if i < n {
        let p = 34 + 6 * i;
        let item = v.items@[i];
        lemma_items_bytes_at(v.items@, i);
        assert(s.subrange(p, p + 6) =~= items_bytes(v.items@).subrange(6 * i, 6 * i + 6));
        assert(s.subrange(p, p + 2) =~= u16_le(item.item_type.spec_code()));
        assert(item.spec_bytes().subrange(2, 4) =~= u16_le(item.size));
        assert(s.subrange(p + 2, p + 4) =~= s.subrange(p, p + 6).subrange(2, 4));
        lemma_u16_at_of(s, p, item.item_type.spec_code());
        lemma_u16_at_of(s, p + 2, item.size);
        lemma_items_decode_ok(v, i + 1);
    }
}

/// The fields of the fixed part of the header, read back from its bytes.
proof fn lemma_head_fields(v: LazVlr)
    ensures
        v.head_bytes().len() == 34,
        v.head_bytes().subrange(0, 2) == u16_le(v.compressor.spec_code()),
        v.head_bytes().subrange(2, 4) == u16_le(v.coder),
        v.head_bytes()[4] == v.version.major,
        v.head_bytes()[5] == v.version.minor,
        v.head_bytes().subrange(6, 8) == u16_le(v.version.revision),
        v.head_bytes().subrange(8, 12) == u32_le(v.options),
        v.head_bytes().subrange(12, 16) == u32_le(v.chunk_size),
        v.head_bytes().subrange(16, 24) == i64_le(v.number_of_special_evlrs),
        v.head_bytes().subrange(24, 32) == i64_le(v.offset_to_special_evlrs),
        v.head_bytes().subrange(32, 34) == u16_le(v.items@.len() as u16),
{
    let h = v.head_bytes();
    assert(h.subrange(0, 2) =~= u16_le(v.compressor.spec_code()));
    assert(h.subrange(2, 4) =~= u16_le(v.coder));
    assert(h.subrange(6, 8) =~= u16_le(v.version.revision));
    assert(h.subrange(8, 12) =~= u32_le(v.options));
    assert(h.subrange(12, 16) =~= u32_le(v.chunk_size));
    assert(h.subrange(16, 24) =~= i64_le(v.number_of_special_evlrs));
    assert(h.subrange(24, 32) =~= i64_le(v.offset_to_special_evlrs));
    assert(h.subrange(32, 34) =~= u16_le(v.items@.len() as u16));
}

/// The `i`-th item of the buffer `s` has a known type code.
pub open spec fn item_code_ok(s: Seq<u8>, i: int) -> bool {
    LazItemType::spec_from_u16(u16_at(s, 34 + 6 * i), u16_at(s, 36 + 6 * i)) is Some
}

/// `s` holds exactly one header: a known compressor code, an item count `n`,
/// `34 + 6 n` bytes in all, and a known type code for every item.
pub open spec fn is_header(s: Seq<u8>) -> bool {
    s.len() >= 34 && CompressorType::spec_from_u16(u16_at(s, 0)) is Some && s.len() == 34 + 6
        * u16_at(s, 32) && forall|i: int| 0 <= i < u16_at(s, 32) ==> #[trigger] item_code_ok(s, i)
}

proof fn lemma_header_items_ok(s: Seq<u8>, i: int)
    requires
        is_header(s),
        0 <= i <= u16_at(s, 32),
    ensures
        items_decode_error(s, u16_at(s, 32) as int, i) is None,
    decreases u16_at(s, 32) - i,
{
    if i < u16_at(s, 32) {
        assert(item_code_ok(s, i));
        lemma_header_items_ok(s, i + 1);
    }
}

/// A buffer that holds exactly one header decodes without error, and
/// encoding what was decoded gives the buffer back byte for byte.
pub proof fn lemma_decode_then_encode(s: Seq<u8>)
    requires
        is_header(s),
    ensures
        decode_error(s) is None,
        forall|v: LazVlr| #[trigger] v.decoded_from(s) ==> v.spec_bytes() == s,
{
    lemma_header_items_ok(s, 0);
    assert forall|v: LazVlr| #[trigger] v.decoded_from(s) implies v.spec_bytes() == s by {
        lemma_items_bytes_len(v.items@);
        lemma_head_fields(v);
        let n = v.items@.len();
        assert(s.subrange(32, 34) =~= v.spec_bytes().subrange(32, 34));
        assert(v.spec_bytes().subrange(32, 34) =~= v.head_bytes().subrange(32, 34));
        lemma_u16_at_of(s, 32, n as u16);
        assert(s.subrange(0, s.len() as int) =~= s);
    }
}

proof fn lemma_truncated_items(s: Seq<u8>, t: Seq<u8>, i: int)
    requires
        is_header(s),
        t == s.subrange(0, t.len() as int),
        t.len() < s.len(),
        0 <= i,
        34 + 6 * i <= t.len(),
    ensures
        items_decode_error(t, u16_at(s, 32) as int, i) == Some(LasZipError::UnexpectedEof),
    decreases u16_at(s, 32) - i,
{
    let p = 34 + 6 * i;
    if t.len() >= p + 4 {
        assert(item_code_ok(s, i));
        assert(t[p] == s[p] && t[p + 1] == s[p + 1] && t[p + 2] == s[p + 2] && t[p + 3] == s[p
            + 3]);
        if t.len() >= p + 6 {
            lemma_truncated_items(s, t, i + 1);
        }
    }
}

/// A buffer that ends before the header it starts does is refused as too
/// short.
pub proof fn lemma_truncated_header(s: Seq<u8>, k: int)
    requires
        is_header(s),
        0 <= k < s.len(),
    ensures
        decode_error(s.subrange(0, k)) == Some(LasZipError::UnexpectedEof),
{
    let t = s.subrange(0, k);
    if k >= 2 {
        assert(t[0] == s[0] && t[1] == s[1]);
        if k >= 34 {
            assert(t[32] == s[32] && t[33] == s[33]);
            lemma_truncated_items(s, t, 0);
        }
    }
}

/// Encoding a well-formed header gives bytes that decode without error,
/// and any header decoded from them equals the encoded one in every field.
pub proof fn lemma_encode_then_decode(v: LazVlr)
    requires
        v.wf(),
    ensures
        decode_error(v.spec_bytes()) is None,
        forall|w: LazVlr| #[trigger] w.decoded_from(v.spec_bytes()) ==> w.same_as(v),
{
    let s = v.spec_bytes();
    lemma_items_bytes_len(v.items@);
    lemma_head_fields(v);
    assert(s.subrange(0, 34) =~= v.head_bytes());
    assert(s.subrange(0, 2) =~= v.head_bytes().subrange(0, 2));
    assert(s.subrange(32, 34) =~= v.head_bytes().subrange(32, 34));
    lemma_u16_at_of(s, 0, v.compressor.spec_code());
    lemma_u16_at_of(s, 32, v.items@.len() as u16);
    lemma_items_decode_ok(v, 0);
    assert forall|w: LazVlr| #[trigger] w.decoded_from(s) implies w.same_as(v) by {
        lemma_decoded_same(v, w);
    }
}

proof fn lemma_decoded_same(v: LazVlr, w: LazVlr)
    requires
        v.wf(),
        w.decoded_from(v.spec_bytes()),
    ensures
        w.same_as(v),
{
    let s = v.spec_bytes();
    lemma_items_bytes_len(v.items@);
    lemma_items_bytes_len(w.items@);
    lemma_head_fields(v);
    lemma_head_fields(w);
    assert(s.subrange(0, 34) =~= v.head_bytes());
    // The fixed parts agree, and with them every field they hold.
    let ws = w.spec_bytes();
    assert(w.head_bytes() =~= ws.subrange(0, 34));
    assert(ws.subrange(0, 34) =~= s.subrange(0, 34));
    let (hv, hw) = (v.head_bytes(), w.head_bytes());
    assert(hv == hw);
    lemma_u16_le_injective(v.compressor.spec_code(), w.compressor.spec_code());
    lemma_u16_le_injective(v.coder, w.coder);
    lemma_u16_le_injective(v.version.revision, w.version.revision);
    lemma_u32_le_injective(v.options, w.options);
    lemma_u32_le_injective(v.chunk_size, w.chunk_size);
    lemma_i64_le_injective(v.number_of_special_evlrs, w.number_of_special_evlrs);
    lemma_i64_le_injective(v.offset_to_special_evlrs, w.offset_to_special_evlrs);
    lemma_u16_le_injective(v.items@.len() as u16, w.items@.len() as u16);
    // Then the items.
    let n = 6 * v.items@.len() as int;
    assert(items_bytes(w.items@) =~= ws.subrange(34, 34 + n));
    assert(items_bytes(v.items@) =~= s.subrange(34, 34 + n));
    assert(ws.subrange(34, 34 + n) =~= s.subrange(34, 34 + n));
    lemma_items_bytes_injective(v.items@, w.items@);
}

/// A compressor-type code of 4 or more is refused as such.
pub proof fn lemma_unknown_compressor_type(s: Seq<u8>)
    requires
        s.len() >= 2,
        u16_at(s, 0) >= 4,
    ensures
        decode_error(s) == Some(LasZipError::UnknownCompressorType(u16_at(s, 0))),
{
}

proof fn lemma_unknown_item_from(s: Seq<u8>, k: int, i: int)
    requires
        s.len() >= 34 + 6 * k + 4,
        0 <= i <= k < u16_at(s, 32),
        forall|j: int| 0 <= j < k ==> #[trigger] item_code_ok(s, j),
        !item_code_ok(s, k),
    ensures
        items_decode_error(s, u16_at(s, 32) as int, i) == Some(
            LasZipError::UnknownLazItem(u16_at(s, 34 + 6 * k)),
        ),
    decreases k - i,
{
    if i < k {
        assert(item_code_ok(s, i));
        lemma_unknown_item_from(s, k, i + 1);
    }
}

/// An item-type code outside {0, 6, 7, 8, 10, 11, 12, 14}, after items with
/// known codes, is refused with that code.
pub proof fn lemma_unknown_item_type(s: Seq<u8>, k: int)
    requires
        s.len() >= 34 + 6 * k + 4,
        CompressorType::spec_from_u16(u16_at(s, 0)) is Some,
        0 <= k < u16_at(s, 32),
        forall|j: int| 0 <= j < k ==> #[trigger] item_code_ok(s, j),
        !item_code_ok(s, k),
    ensures
        decode_error(s) == Some(LasZipError::UnknownLazItem(u16_at(s, 34 + 6 * k))),
{
    lemma_unknown_item_from(s, k, 0);
}

/// The default item list of a known point format is not empty, its first
/// item has the format's default version, and it makes a header.
pub proof fn lemma_default_items(f: PointFormat, n: u16, items: Seq<LazItem>)
    requires
        items_of(items, f.spec_fields(n), f.spec_default_version()),
    ensures
        items.len() > 0,
        items[0].spec_version() == f.spec_default_version(),
        items_error(items) is None,
{
    assert(items[0].is_new(f.spec_fields(n)[0], f.spec_default_version()));
}

} // verus!
