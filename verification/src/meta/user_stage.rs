//! Stages and the options of loading from them.

use crate::text::lowercase_of;
use crate::text::parse_u64;
use crate::text::parsed_u64;
use crate::text::replace;
use crate::text::replaced_in;
use crate::text::str_eq;
use crate::text::to_lowercase;
use crate::text::to_uppercase;
use crate::text::uppercase_of;
use vstd::prelude::*;
use vstd::string::StringExecFns;

verus! {

/// Whether the files of a stage are kept by the engine or elsewhere.
#[derive(Clone, Copy, Debug, PartialEq, Eq, Structural)]
pub enum StageType {
    Internal,
    External,
}

impl StageType {
    /// The name of the stage type.
    pub open spec fn name(self) -> Seq<char> {
        match self {
            StageType::Internal => "Internal"@,
            StageType::External => "External"@,
        }
    }

    /// The name of the stage type as text.
    pub fn to_string(&self) -> (s: String)
        ensures
            s@ == self.name(),
    {
        match self {
            StageType::Internal => String::from_str("Internal"),
            StageType::External => String::from_str("External"),
        }
    }
}

impl Default for StageType {
    fn default() -> (r: StageType)
        ensures
            r == StageType::External,
    {
        StageType::External
    }
}

/// How the files of a stage are compressed.
#[derive(Clone, Copy, Debug, PartialEq, Eq, Structural)]
pub enum StageFileCompression {
    Auto,
    Gzip,
    Bz2,
    Brotli,
    Zstd,
    Deflate,
    RawDeflate,
    Lzo,
    Snappy,
    Xz,
    /// The files are not compressed.
    Uncompressed,
}

impl Default for StageFileCompression {
    fn default() -> (r: StageFileCompression)
        ensures
            r == StageFileCompression::Uncompressed,
    {
        StageFileCompression::Uncompressed
    }
}

/// The compression that a name in lower case stands for.
pub open spec fn compression_named(name: Seq<char>) -> Option<StageFileCompression> {
    if name == "auto"@ {
        Some(StageFileCompression::Auto)
    } else if name == "gzip"@ {
        Some(StageFileCompression::Gzip)
    } else if name == "bz2"@ {
        Some(StageFileCompression::Bz2)
    } else if name == "brotli"@ {
        Some(StageFileCompression::Brotli)
    } else if name == "zstd"@ {
        Some(StageFileCompression::Zstd)
    } else if name == "deflate"@ {
        Some(StageFileCompression::Deflate)
    } else if name == "rawdeflate"@ || name == "raw_deflate"@ {
        Some(StageFileCompression::RawDeflate)
    } else if name == "lzo"@ {
        Some(StageFileCompression::Lzo)
    } else if name == "snappy"@ {
        Some(StageFileCompression::Snappy)
    } else if name == "xz"@ {
        Some(StageFileCompression::Xz)
    } else if name == "none"@ {
        Some(StageFileCompression::Uncompressed)
    } else {
        None
    }
}

/// The message for a name that stands for no compression.
pub open spec fn unknown_compression() -> Seq<char> {
    "Unknown file compression type, must one of { auto | gzip | bz2 | brotli | zstd | deflate | raw_deflate | lzo | snappy | xz | none }"@
}

impl StageFileCompression {
    /// The compression that the name `name`, given in lower case, stands
    /// for.
    pub fn from_lowercase(name: &str) -> (r: Result<StageFileCompression, String>)
        ensures
            match compression_named(name@) {
                Some(c) => r == Ok::<StageFileCompression, String>(c),
                None => r is Err && r->Err_0@ == unknown_compression(),
            },
    {
        if str_eq(name, "auto") {
            Ok(StageFileCompression::Auto)
        } else if str_eq(name, "gzip") {
            Ok(StageFileCompression::Gzip)
        } else if str_eq(name, "bz2") {
            Ok(StageFileCompression::Bz2)
        } else if str_eq(name, "brotli") {
            Ok(StageFileCompression::Brotli)
        } else if str_eq(name, "zstd") {
            Ok(StageFileCompression::Zstd)
        } else if str_eq(name, "deflate") {
            Ok(StageFileCompression::Deflate)
        } else if str_eq(name, "rawdeflate") || str_eq(name, "raw_deflate") {
            Ok(StageFileCompression::RawDeflate)
        } else if str_eq(name, "lzo") {
            Ok(StageFileCompression::Lzo)
        } else if str_eq(name, "snappy") {
            Ok(StageFileCompression::Snappy)
        } else if str_eq(name, "xz") {
            Ok(StageFileCompression::Xz)
        } else if str_eq(name, "none") {
            Ok(StageFileCompression::Uncompressed)
        } else {
            Err(
                String::from_str(
                    "Unknown file compression type, must one of { auto | gzip | bz2 | brotli | zstd | deflate | raw_deflate | lzo | snappy | xz | none }",
                ),
            )
        }
    }

    /// The compression that the name `s` stands for, whatever the case of
    /// its letters.
    pub fn from_str(s: &str) -> (r: Result<StageFileCompression, String>)
        ensures
            match compression_named(lowercase_of(s@)) {
                Some(c) => r == Ok::<StageFileCompression, String>(c),
                None => r is Err && r->Err_0@ == unknown_compression(),
            },
    {
        let lower = to_lowercase(s);
        StageFileCompression::from_lowercase(lower.as_str())
    }
}

/// The format of the files of a stage.
#[derive(Clone, Copy, Debug, PartialEq, Eq, Structural)]
pub enum StageFileFormatType {
    Csv,
    Json,
    Avro,
    Orc,
    Parquet,
    Xml,
}

impl Default for StageFileFormatType {
    fn default() -> (r: StageFileFormatType)
        ensures
            r == StageFileFormatType::Csv,
    {
        StageFileFormatType::Csv
    }
}

/// The format that a name in upper case stands for.
pub open spec fn format_named(name: Seq<char>) -> Option<StageFileFormatType> {
    if name == "CSV"@ {
        Some(StageFileFormatType::Csv)
    } else if name == "JSON"@ {
        Some(StageFileFormatType::Json)
    } else if name == "AVRO"@ {
        Some(StageFileFormatType::Avro)
    } else if name == "ORC"@ {
        Some(StageFileFormatType::Orc)
    } else if name == "PARQUET"@ {
        Some(StageFileFormatType::Parquet)
    } else if name == "XML"@ {
        Some(StageFileFormatType::Xml)
    } else {
        None
    }
}

/// The message for a name that stands for no format.
pub open spec fn unknown_format() -> Seq<char> {
    "Unknown file format type, must one of { CSV | JSON | AVRO | ORC | PARQUET | XML }"@
}

impl StageFileFormatType {
    /// The format that the name `name`, given in upper case, stands for.
    pub fn from_uppercase(name: &str) -> (r: Result<StageFileFormatType, String>)
        ensures
            match format_named(name@) {
                Some(f) => r == Ok::<StageFileFormatType, String>(f),
                None => r is Err && r->Err_0@ == unknown_format(),
            },
    {
        if str_eq(name, "CSV") {
            Ok(StageFileFormatType::Csv)
        } else if str_eq(name, "JSON") {
            Ok(StageFileFormatType::Json)
        } else if str_eq(name, "AVRO") {
            Ok(StageFileFormatType::Avro)
        } else if str_eq(name, "ORC") {
            Ok(StageFileFormatType::Orc)
        } else if str_eq(name, "PARQUET") {
            Ok(StageFileFormatType::Parquet)
        } else if str_eq(name, "XML") {
            Ok(StageFileFormatType::Xml)
        } else {
            Err(String::from_str("Unknown file format type, must one of { CSV | JSON | AVRO | ORC | PARQUET | XML }"))
        }
    }

    /// The format that the name `s` stands for, whatever the case of its
    /// letters.
    pub fn from_str(s: &str) -> (r: Result<StageFileFormatType, String>)
        ensures
            match format_named(uppercase_of(s@)) {
                Some(f) => r == Ok::<StageFileFormatType, String>(f),
                None => r is Err && r->Err_0@ == unknown_format(),
            },
    {
        let upper = to_uppercase(s);
        StageFileFormatType::from_uppercase(upper.as_str())
    }
}

/// How the files of a stage are read.
#[derive(Clone, Debug, PartialEq, Eq)]
pub struct FileFormatOptions {
    pub format: StageFileFormatType,
    /// The number of lines at the start of a file that are skipped.
    pub skip_header: u64,
    pub field_delimiter: String,
    pub record_delimiter: String,
    pub compression: StageFileCompression,
}

impl Default for FileFormatOptions {
    /// Comma-separated values, one record on each line, nothing skipped,
    /// not compressed.
    fn default() -> (r: FileFormatOptions)
        ensures
            r.format == StageFileFormatType::Csv,
            r.skip_header == 0,
            r.field_delimiter@ == ","@,
            r.record_delimiter@ == "\n"@,
            r.compression == StageFileCompression::Uncompressed,
    {
        FileFormatOptions {
            format: StageFileFormatType::Csv,
            record_delimiter: String::from_str("\n"),
            field_delimiter: String::from_str(","),
            skip_header: 0,
            compression: StageFileCompression::Uncompressed,
        }
    }
}

/// What to do with a file that holds an error.
#[derive(Clone, Copy, Debug, PartialEq, Eq, Structural)]
pub enum OnErrorMode {
    /// Nothing was asked for.
    Unset,
    Continue,
    SkipFile,
    /// Skip the file once it holds this many errors.
    SkipFileNum(u64),
    AbortStatement,
}

impl Default for OnErrorMode {
    fn default() -> (r: OnErrorMode)
        ensures
            r == OnErrorMode::Unset,
    {
        OnErrorMode::Unset
    }
}

/// The mode that a name in upper case stands for, given the number that
/// is read from what follows `SKIP_FILE_` in it.
///
/// The empty name is `Unset`, `CONTINUE` and `SKIP_FILE` are themselves, and
/// any other name is `SkipFileNum` of the number read, if one was read.
pub open spec fn on_error_named(name: Seq<char>, number: Option<u64>) -> Option<OnErrorMode> {
    if name == ""@ {
        Some(OnErrorMode::Unset)
    } else if name == "CONTINUE"@ {
        Some(OnErrorMode::Continue)
    } else if name == "SKIP_FILE"@ {
        Some(OnErrorMode::SkipFile)
    } else {
        match number {
            Some(n) => Some(OnErrorMode::SkipFileNum(n)),
            None => None,
        }
    }
}

/// The message for the name `name`, in upper case, that stands for no
/// mode.
pub open spec fn unknown_on_error(name: Seq<char>) -> Seq<char> {
    "Unknown OnError mode:\""@ + name
        + "\", must one of { CONTINUE | SKIP_FILE | SKIP_FILE_<num> | ABORT_STATEMENT }"@
}

impl OnErrorMode {
    /// The mode that the name `name`, given in upper case, stands for,
    /// where `number` is what was read from the rest of the name after
    /// `SKIP_FILE_`.
    pub fn from_parts(name: &str, number: Option<u64>) -> (r: Option<OnErrorMode>)
        ensures
            r == on_error_named(name@, number),
    {
        if str_eq(name, "") {
            Some(OnErrorMode::Unset)
        } else if str_eq(name, "CONTINUE") {
            Some(OnErrorMode::Continue)
        } else if str_eq(name, "SKIP_FILE") {
            Some(OnErrorMode::SkipFile)
        } else {
            match number {
                Some(n) => Some(OnErrorMode::SkipFileNum(n)),
                None => None,
            }
        }
    }

    /// The mode that the name `s` stands for, whatever the case of its
    /// letters. An unknown name is an error whose message names it.
    pub fn from_str(s: &str) -> (r: Result<OnErrorMode, String>)
        ensures
            match on_error_named(
                uppercase_of(s@),
                parsed_u64(replaced_in(uppercase_of(s@), "SKIP_FILE_"@, ""@)),
            ) {
                Some(mode) => r == Ok::<OnErrorMode, String>(mode),
                None => r is Err && r->Err_0@ == unknown_on_error(uppercase_of(s@)),
            },
    {
        let upper = to_uppercase(s);
        proof {
            reveal_strlit("SKIP_FILE_");
        }
        let num_str = replace(upper.as_str(), "SKIP_FILE_", "");
        let number = parse_u64(num_str.as_str());
        match OnErrorMode::from_parts(upper.as_str(), number) {
            Some(mode) => Ok(mode),
            None => {
                let mut message = String::from_str("Unknown OnError mode:\"");
                message.append(upper.as_str());
                message.append("\", must one of { CONTINUE | SKIP_FILE | SKIP_FILE_<num> | ABORT_STATEMENT }");
                Err(message)
            },
        }
    }
}

/// How files are copied from a stage.
#[derive(Clone, Copy, Debug, PartialEq, Eq, Structural)]
pub struct CopyOptions {
    pub on_error: OnErrorMode,
    pub size_limit: usize,
}

impl Default for CopyOptions {
    fn default() -> (r: CopyOptions)
        ensures
            r == (CopyOptions { on_error: OnErrorMode::Unset, size_limit: 0 }),
    {
        CopyOptions { on_error: OnErrorMode::Unset, size_limit: 0 }
    }
}

/// The user that created something.
#[derive(Clone, Debug, PartialEq, Eq)]
pub struct UserIdentity {
    pub username: String,
    pub hostname: String,
}

/// Where the files of a stage are kept.
#[derive(Clone, Debug, PartialEq, Eq)]
pub enum StorageParams {
    /// In a directory of the local file system.
    Fs { root: String },
    /// In a bucket of an object store.
    S3 { bucket: String, root: String },
    /// In memory.
    Memory,
}

/// The parameters of a stage.
#[derive(Clone, Debug, PartialEq, Eq)]
pub struct StageParams {
    pub storage: StorageParams,
}

/// A stage.
#[derive(Clone, Debug, PartialEq, Eq)]
pub struct UserStageInfo {
    pub stage_name: String,
    pub stage_type: StageType,
    pub stage_params: StageParams,
    pub file_format_options: FileFormatOptions,
    pub copy_options: CopyOptions,
    pub comment: String,
    pub number_of_files: u64,
    pub creator: Option<UserIdentity>,
}

/// The prefix of the paths of the files of a stage: `/` for an external
/// stage, `/stage/<name>/` for an internal stage of that name.
pub open spec fn stage_prefix(stage_type: StageType, stage_name: Seq<char>) -> Seq<char> {
    match stage_type {
        StageType::External => "/"@,
        StageType::Internal => "/stage/"@ + stage_name + "/"@,
    }
}

impl UserStageInfo {
    /// The prefix of the paths of the files of the stage.
    pub fn get_prefix(&self) -> (r: String)
        ensures
            r@ == stage_prefix(self.stage_type, self.stage_name@),
    {
        match self.stage_type {
            StageType::External => String::from_str("/"),
            StageType::Internal => {
                // The files of an internal stage are kept under its name.
                let mut prefix = String::from_str("/stage/");
                prefix.append(self.stage_name.as_str());
                prefix.append("/");
                prefix
            },
        }
    }
}

/// A file of a stage.
#[derive(Clone, Debug, PartialEq, Eq)]
pub struct StageFile {
    pub path: String,
    pub size: u64,
    pub md5: Option<String>,
    /// The time of the last change, in seconds since the start of 1970.
    pub last_modified: i64,
    pub creator: Option<UserIdentity>,
}

} // verus!
