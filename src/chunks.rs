use vstd::prelude::*;

use crate::error::FourCC;

verus! {

/// The header of the outer container: "RIFF", the declared size of what
/// follows the first eight bytes, and the form type ("WAVE").
#[derive(Debug, Clone, Copy, PartialEq, Eq, Structural)]
pub struct RiffChunk {
    pub file_size: u32,
    pub wave_ident: FourCC,
}

/// The extension of a format chunk whose declared size is 40.
#[derive(Debug, Clone, PartialEq, Eq)]
pub struct ExtendedFmtSubChunk {
    pub num_valid_bits: u16,
    pub channel_mask: u32,
    /// The first two bytes of the sub-format GUID: the actual compression code.
    pub compression_code: u16,
    /// The remaining fourteen bytes of the sub-format GUID.
    pub wav_guid: Vec<u8>,
}

/// A "fmt " chunk: how the samples are encoded.
#[derive(Debug, Clone, PartialEq, Eq)]
pub struct FmtChunk {
    pub chunk_size: u32,
    pub compression_code: u16,
    pub number_of_channels: u16,
    pub sample_rate: u32,
    pub byte_rate: u32,
    pub block_align: u16,
    pub bits_per_sample: u16,
    /// Present when the declared size is 18 or 40.
    pub extra_bytes: Option<u16>,
    /// Present when the declared size is 40.
    pub extended_fmt_sub_chunk: Option<ExtendedFmtSubChunk>,
}

/// A "fact" chunk: the number of samples of a compressed stream.
#[derive(Debug, Clone, Copy, PartialEq, Eq, Structural)]
pub struct FactChunk {
    pub chunk_size: u32,
    pub sample_length: u32,
}

/// A "data" chunk: the raw samples.
#[derive(Debug, Clone, PartialEq, Eq)]
pub struct DataChunk {
    pub chunk_size: u32,
    pub sample_data: Vec<u8>,
}

/// One text record of a "LIST"/"INFO" chunk.
#[derive(Debug, Clone, PartialEq, Eq)]
pub struct ListInfoSubChunk {
    pub info_id: FourCC,
    pub chunk_size: u32,
    pub text: Vec<u8>,
}

/// A "LIST" chunk of form "INFO": a sequence of text records.
#[derive(Debug, Clone, PartialEq, Eq)]
pub struct ListInfoChunk {
    pub chunk_size: u32,
    pub data: Vec<ListInfoSubChunk>,
}

/// The extended header of an embedded ID3v2 tag.
#[derive(Debug, Clone, PartialEq, Eq)]
pub struct ID3v2XHeaderSubChunk {
    pub chunk_size: u32,
    pub extended_flags: u16,
    pub padding_size: u32,
    pub data: Vec<u8>,
}

/// One frame of an embedded ID3v2 tag.
#[derive(Debug, Clone, PartialEq, Eq)]
pub struct ID3v2TagSubChunk {
    pub frame_id: FourCC,
    pub frame_size: u32,
    pub flags: u16,
    pub data: Vec<u8>,
}

/// An "id3 " chunk: an ID3v2 tag embedded in the container.
#[derive(Debug, Clone, PartialEq, Eq)]
pub struct ID3v2Chunk {
    pub chunk_size: u32,
    pub major_version: u8,
    pub minor_version: u8,
    /// Bit 7 tells that an extended header is present.
    pub flags: u8,
    /// The size of the frames, big-endian in the file.
    pub id3v2_size: u32,
    pub xheader: Option<ID3v2XHeaderSubChunk>,
    pub tags: Vec<ID3v2TagSubChunk>,
}

/// A chunk that no specific decoder accepted.
#[derive(Debug, Clone, PartialEq, Eq)]
pub struct UnknownChunk {
    pub chunk_id: FourCC,
    pub chunk_size: u32,
    pub data: Vec<u8>,
}

/// A decoded chunk.
#[derive(Debug, Clone, PartialEq, Eq)]
pub enum Chunk {
    Fmt(FmtChunk),
    Data(DataChunk),
    ListInfo(ListInfoChunk),
    ID3v2(ID3v2Chunk),
    Unknown(UnknownChunk),
}

/// A whole parsed file: its header and its chunks in file order.
#[derive(Debug, Clone, PartialEq, Eq)]
pub struct WavFile {
    pub riff: RiffChunk,
    pub chunks: Vec<Chunk>,
}

// Mathematical models of the chunks: the same fields, with sequences for the
// byte vectors.
pub struct ExtendedFmtModel {
    pub num_valid_bits: u16,
    pub channel_mask: u32,
    pub compression_code: u16,
    pub wav_guid: Seq<u8>,
}

pub struct FmtModel {
    pub chunk_size: u32,
    pub compression_code: u16,
    pub number_of_channels: u16,
    pub sample_rate: u32,
    pub byte_rate: u32,
    pub block_align: u16,
    pub bits_per_sample: u16,
    pub extra_bytes: Option<u16>,
    pub extended: Option<ExtendedFmtModel>,
}

pub struct DataModel {
    pub chunk_size: u32,
    pub sample_data: Seq<u8>,
}

pub struct InfoRecordModel {
    pub info_id: FourCC,
    pub chunk_size: u32,
    pub text: Seq<u8>,
}

pub struct ListInfoModel {
    pub chunk_size: u32,
    pub data: Seq<InfoRecordModel>,
}

pub struct XHeaderModel {
    pub chunk_size: u32,
    pub extended_flags: u16,
    pub padding_size: u32,
    pub data: Seq<u8>,
}

pub struct FrameModel {
    pub frame_id: FourCC,
    pub frame_size: u32,
    pub flags: u16,
    pub data: Seq<u8>,
}

pub struct ID3v2Model {
    pub chunk_size: u32,
    pub major_version: u8,
    pub minor_version: u8,
    pub flags: u8,
    pub id3v2_size: u32,
    pub xheader: Option<XHeaderModel>,
    pub tags: Seq<FrameModel>,
}

pub struct UnknownModel {
    pub chunk_id: FourCC,
    pub chunk_size: u32,
    pub data: Seq<u8>,
}

pub enum ChunkModel {
    Fmt(FmtModel),
    Data(DataModel),
    ListInfo(ListInfoModel),
    ID3v2(ID3v2Model),
    Unknown(UnknownModel),
}

pub struct WavModel {
    pub riff: RiffChunk,
    pub chunks: Seq<ChunkModel>,
}

impl View for ExtendedFmtSubChunk {
    type V = ExtendedFmtModel;

    open spec fn view(&self) -> ExtendedFmtModel {
        ExtendedFmtModel {
            num_valid_bits: self.num_valid_bits,
            channel_mask: self.channel_mask,
            compression_code: self.compression_code,
            wav_guid: self.wav_guid@,
        }
    }
}

impl View for FmtChunk {
    type V = FmtModel;

    open spec fn view(&self) -> FmtModel {
        FmtModel {
            chunk_size: self.chunk_size,
            compression_code: self.compression_code,
            number_of_channels: self.number_of_channels,
            sample_rate: self.sample_rate,
            byte_rate: self.byte_rate,
            block_align: self.block_align,
            bits_per_sample: self.bits_per_sample,
            extra_bytes: self.extra_bytes,
            extended: match self.extended_fmt_sub_chunk {
                Some(x) => Some(x@),
                None => None,
            },
        }
    }
}

impl View for DataChunk {
    type V = DataModel;

    open spec fn view(&self) -> DataModel {
        DataModel { chunk_size: self.chunk_size, sample_data: self.sample_data@ }
    }
}

impl View for ListInfoSubChunk {
    type V = InfoRecordModel;

    open spec fn view(&self) -> InfoRecordModel {
        InfoRecordModel { info_id: self.info_id, chunk_size: self.chunk_size, text: self.text@ }
    }
}

impl View for ListInfoChunk {
    type V = ListInfoModel;

    open spec fn view(&self) -> ListInfoModel {
        ListInfoModel {
            chunk_size: self.chunk_size,
            data: self.data@.map_values(|s: ListInfoSubChunk| s@),
        }
    }
}

impl View for ID3v2XHeaderSubChunk {
    type V = XHeaderModel;

    open spec fn view(&self) -> XHeaderModel {
        XHeaderModel {
            chunk_size: self.chunk_size,
            extended_flags: self.extended_flags,
            padding_size: self.padding_size,
            data: self.data@,
        }
    }
}

impl View for ID3v2TagSubChunk {
    type V = FrameModel;

    open spec fn view(&self) -> FrameModel {
        FrameModel {
            frame_id: self.frame_id,
            frame_size: self.frame_size,
            flags: self.flags,
            data: self.data@,
        }
    }
}

impl View for ID3v2Chunk {
    type V = ID3v2Model;

    open spec fn view(&self) -> ID3v2Model {
        ID3v2Model {
            chunk_size: self.chunk_size,
            major_version: self.major_version,
            minor_version: self.minor_version,
            flags: self.flags,
            id3v2_size: self.id3v2_size,
            xheader: match self.xheader {
                Some(x) => Some(x@),
                None => None,
            },
            tags: self.tags@.map_values(|t: ID3v2TagSubChunk| t@),
        }
    }
}

impl View for UnknownChunk {
    type V = UnknownModel;

    open spec fn view(&self) -> UnknownModel {
        UnknownModel { chunk_id: self.chunk_id, chunk_size: self.chunk_size, data: self.data@ }
    }
}

impl View for Chunk {
    type V = ChunkModel;

    open spec fn view(&self) -> ChunkModel {
        match self {
            Chunk::Fmt(c) => ChunkModel::Fmt(c@),
            Chunk::Data(c) => ChunkModel::Data(c@),
            Chunk::ListInfo(c) => ChunkModel::ListInfo(c@),
            Chunk::ID3v2(c) => ChunkModel::ID3v2(c@),
            Chunk::Unknown(c) => ChunkModel::Unknown(c@),
        }
    }
}

impl View for WavFile {
    type V = WavModel;

    open spec fn view(&self) -> WavModel {
        WavModel { riff: self.riff, chunks: self.chunks@.map_values(|c: Chunk| c@) }
    }
}

} // verus!
