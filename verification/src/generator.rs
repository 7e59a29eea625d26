//! What a run is asked for, and what follows from it before the walk starts.

use crate::engine::tasks::{DynamicGenerator, GeneratorBytes, StaticGenerator, TaskGenerator};
use crate::utils::file_names::{decimal, format_u64};
use crate::utils::non_zero::NonZeroU64;
use std::path::PathBuf;
use vstd::prelude::*;
use vstd::string::StringExecFns;

verus! {

/// `std::path::PathBuf`: a path as the operating system takes it. The
/// library carries it and never looks into it.
#[verifier::external_type_specification]
#[verifier::external_body]
pub struct ExPathBuf(PathBuf);

/// Why a run failed.
#[derive(Debug, Copy, Clone, PartialEq, Eq, Structural)]
pub enum Error {
    TaskJoin,
    Io,
    InvalidEnvironment,
    RuntimeCreation,
}

impl Error {
    /// The failure in words.
    pub fn message(&self) -> (text: String)
        ensures
            text@ == match self {
                Error::TaskJoin => "Failed to retrieve subtask results."@,
                Error::Io => "An IO error occurred in a subtask."@,
                Error::InvalidEnvironment => "Failed to achieve valid generator environment."@,
                Error::RuntimeCreation => "Failed to create the async runtime."@,
            },
    {
        match self {
            Error::TaskJoin => "Failed to retrieve subtask results.".to_owned(),
            Error::Io => "An IO error occurred in a subtask.".to_owned(),
            Error::InvalidEnvironment => "Failed to achieve valid generator environment.".to_owned(),
            Error::RuntimeCreation => "Failed to create the async runtime.".to_owned(),
        }
    }
}

/// Why the program that runs the library failed.
#[derive(Debug, Copy, Clone, PartialEq, Eq, Structural)]
pub enum CliError {
    Generator,
    InvalidArgs,
}

impl CliError {
    /// The failure in words.
    pub fn message(&self) -> (text: String)
        ensures
            text@ == match self {
                CliError::Generator => "File generator failed."@,
                CliError::InvalidArgs => "An argument combination was invalid."@,
            },
    {
        match self {
            CliError::Generator => "File generator failed.".to_owned(),
            CliError::InvalidArgs => "An argument combination was invalid.".to_owned(),
        }
    }
}

/// The number of files of a run, and how many files there are to be for
/// every directory.
#[derive(Debug, Copy, Clone)]
pub struct NumFilesWithRatio {
    num_files: u64,
    file_to_dir_ratio: u64,
}

/// Why a number of files and a ratio do not go together.
#[derive(Debug, Copy, Clone)]
pub enum NumFilesWithRatioError {
    /// There cannot be more files for every directory than there are files.
    InvalidRatio { num_files: NonZeroU64, file_to_dir_ratio: NonZeroU64 },
}

impl NumFilesWithRatioError {
    /// The text of the failure for the two numbers given.
    pub open spec fn spec_message(num_files: u64, file_to_dir_ratio: u64) -> Seq<char> {
        "The file to dir ratio ("@ + decimal(file_to_dir_ratio as nat)
            + ") cannot be larger than the number of files to generate ("@ + decimal(
            num_files as nat,
        ) + ")."@
    }

    /// The failure in words.
    pub fn message(&self) -> (text: String)
        ensures
            self matches NumFilesWithRatioError::InvalidRatio { num_files, file_to_dir_ratio }
                && text@ == Self::spec_message(num_files@, file_to_dir_ratio@),
    {
        match self {
            NumFilesWithRatioError::InvalidRatio { num_files, file_to_dir_ratio } => {
                let mut text = "The file to dir ratio (".to_owned();
                text.append(format_u64(file_to_dir_ratio.get()).as_str());
                text.append(") cannot be larger than the number of files to generate (");
                text.append(format_u64(num_files.get()).as_str());
                text.append(").");
                text
            },
        }
    }
}

/// The ratio that is taken where none is given: a thousandth of the files,
/// and at least one.
pub open spec fn spec_default_ratio(num_files: u64) -> u64 {
    if num_files / 1000 >= 1 {
        num_files / 1000
    } else {
        1
    }
}

impl NumFilesWithRatio {
    /// Number of files of the run.
    pub closed spec fn spec_num_files(&self) -> u64 {
        self.num_files
    }

    /// Number of files for every directory.
    pub closed spec fn spec_file_to_dir_ratio(&self) -> u64 {
        self.file_to_dir_ratio
    }

    #[verifier::type_invariant]
    spec fn ratio_fits(&self) -> bool {
        0 < self.file_to_dir_ratio <= self.num_files
    }

    /// The two numbers together, unless there are to be more files for
    /// every directory than there are files.
    pub fn new(num_files: NonZeroU64, file_to_dir_ratio: NonZeroU64) -> (result: Result<
        Self,
        NumFilesWithRatioError,
    >)
        ensures
            match result {
                Ok(value) => file_to_dir_ratio@ <= num_files@ && value.spec_num_files()
                    == num_files@ && value.spec_file_to_dir_ratio() == file_to_dir_ratio@,
                Err(
                    NumFilesWithRatioError::InvalidRatio { num_files: files, file_to_dir_ratio: ratio },
                ) => file_to_dir_ratio@ > num_files@ && files@ == num_files@ && ratio@
                    == file_to_dir_ratio@,
            },
    {
        if file_to_dir_ratio.get() > num_files.get() {
            return Err(NumFilesWithRatioError::InvalidRatio { num_files, file_to_dir_ratio });
        }
        Ok(
            NumFilesWithRatio {
                num_files: num_files.get(),
                file_to_dir_ratio: file_to_dir_ratio.get(),
            },
        )
    }

    /// The number of files with the ratio that is taken where none is given.
    pub fn from_num_files(num_files: NonZeroU64) -> (value: Self)
        ensures
            value.spec_num_files() == num_files@,
            value.spec_file_to_dir_ratio() == spec_default_ratio(num_files@),
    {
        let files: u64 = num_files.get();
        let ratio: u64 = if files / 1000 >= 1 {
            files / 1000
        } else {
            1
        };
        NumFilesWithRatio { num_files: files, file_to_dir_ratio: ratio }
    }

    /// Number of files of the run: at least one.
    pub fn num_files(&self) -> (num_files: u64)
        ensures
            num_files == self.spec_num_files(),
            num_files > 0,
    {
        proof {
            use_type_invariant(self);
        }
        self.num_files
    }

    /// Number of files for every directory: at least one, and no more than
    /// there are files.
    pub fn file_to_dir_ratio(&self) -> (ratio: u64)
        ensures
            ratio == self.spec_file_to_dir_ratio(),
            0 < ratio <= self.spec_num_files(),
    {
        proof {
            use_type_invariant(self);
        }
        self.file_to_dir_ratio
    }
}

/// What a run is asked for.
#[derive(Debug)]
pub struct Generator {
    root_dir: PathBuf,
    num_files_with_ratio: NumFilesWithRatio,
    files_exact: bool,
    num_bytes: u64,
    fill_byte: Option<u8>,
    bytes_exact: bool,
    max_depth: u32,
    seed: u64,
}

/// A `Generator` in the making. The root directory and the number of files
/// have to be set before it can be built; for the rest there are defaults.
pub struct GeneratorBuilder<R, N> {
    pub root_dir: R,
    pub num_files_with_ratio: N,
    pub files_exact: bool,
    pub num_bytes: u64,
    pub fill_byte: Option<u8>,
    pub bytes_exact: bool,
    pub max_depth: u32,
    pub seed: u64,
}

impl<N> GeneratorBuilder<(), N> {
    /// Sets the directory below which the tree is made.
    pub fn root_dir(self, root_dir: PathBuf) -> (builder: GeneratorBuilder<PathBuf, N>)
        ensures
            builder == (GeneratorBuilder {
                root_dir,
                num_files_with_ratio: self.num_files_with_ratio,
                files_exact: self.files_exact,
                num_bytes: self.num_bytes,
                fill_byte: self.fill_byte,
                bytes_exact: self.bytes_exact,
                max_depth: self.max_depth,
                seed: self.seed,
            }),
    {
        GeneratorBuilder {
            root_dir,
            num_files_with_ratio: self.num_files_with_ratio,
            files_exact: self.files_exact,
            num_bytes: self.num_bytes,
            fill_byte: self.fill_byte,
            bytes_exact: self.bytes_exact,
            max_depth: self.max_depth,
            seed: self.seed,
        }
    }
}

impl<R> GeneratorBuilder<R, ()> {
    /// Sets the number of files and how many there are for every directory.
    pub fn num_files_with_ratio(self, num_files_with_ratio: NumFilesWithRatio) -> (builder:
        GeneratorBuilder<R, NumFilesWithRatio>)
        ensures
            builder == (GeneratorBuilder {
                root_dir: self.root_dir,
                num_files_with_ratio,
                files_exact: self.files_exact,
                num_bytes: self.num_bytes,
                fill_byte: self.fill_byte,
                bytes_exact: self.bytes_exact,
                max_depth: self.max_depth,
                seed: self.seed,
            }),
    {
        GeneratorBuilder {
            root_dir: self.root_dir,
            num_files_with_ratio,
            files_exact: self.files_exact,
            num_bytes: self.num_bytes,
            fill_byte: self.fill_byte,
            bytes_exact: self.bytes_exact,
            max_depth: self.max_depth,
            seed: self.seed,
        }
    }
}

impl<R, N> GeneratorBuilder<R, N> {
    /// Sets whether the run makes exactly the number of files asked for.
    pub fn files_exact(self, files_exact: bool) -> (builder: Self)
        ensures
            builder == (GeneratorBuilder { files_exact, ..self }),
    {
        GeneratorBuilder { files_exact, ..self }
    }

    /// Sets the number of bytes that the files hold in all.
    pub fn num_bytes(self, num_bytes: u64) -> (builder: Self)
        ensures
            builder == (GeneratorBuilder { num_bytes, ..self }),
    {
        GeneratorBuilder { num_bytes, ..self }
    }

    /// Sets the byte that fills the files.
    pub fn fill_byte(self, fill_byte: u8) -> (builder: Self)
        ensures
            builder == (GeneratorBuilder { fill_byte: Some(fill_byte), ..self }),
    {
        GeneratorBuilder { fill_byte: Some(fill_byte), ..self }
    }

    /// Sets the byte that fills the files, if there is to be one.
    pub fn maybe_fill_byte(self, fill_byte: Option<u8>) -> (builder: Self)
        ensures
            builder == (GeneratorBuilder { fill_byte, ..self }),
    {
        GeneratorBuilder { fill_byte, ..self }
    }

    /// Sets whether the run writes exactly the number of bytes asked for.
    pub fn bytes_exact(self, bytes_exact: bool) -> (builder: Self)
        ensures
            builder == (GeneratorBuilder { bytes_exact, ..self }),
    {
        GeneratorBuilder { bytes_exact, ..self }
    }

    /// Sets how many levels of directories the tree may have.
    pub fn max_depth(self, max_depth: u32) -> (builder: Self)
        ensures
            builder == (GeneratorBuilder { max_depth, ..self }),
    {
        GeneratorBuilder { max_depth, ..self }
    }

    /// Sets the seed of the run.
    pub fn seed(self, seed: u64) -> (builder: Self)
        ensures
            builder == (GeneratorBuilder { seed, ..self }),
    {
        GeneratorBuilder { seed, ..self }
    }
}

impl GeneratorBuilder<PathBuf, NumFilesWithRatio> {
    /// The generator with what has been set.
    pub fn build(self) -> (generator: Generator)
        ensures
            generator@ == self,
    {
        Generator {
            root_dir: self.root_dir,
            num_files_with_ratio: self.num_files_with_ratio,
            files_exact: self.files_exact,
            num_bytes: self.num_bytes,
            fill_byte: self.fill_byte,
            bytes_exact: self.bytes_exact,
            max_depth: self.max_depth,
            seed: self.seed,
        }
    }
}

impl View for Generator {
    type V = GeneratorBuilder<PathBuf, NumFilesWithRatio>;

    closed spec fn view(&self) -> GeneratorBuilder<PathBuf, NumFilesWithRatio> {
        GeneratorBuilder {
            root_dir: self.root_dir,
            num_files_with_ratio: self.num_files_with_ratio,
            files_exact: self.files_exact,
            num_bytes: self.num_bytes,
            fill_byte: self.fill_byte,
            bytes_exact: self.bytes_exact,
            max_depth: self.max_depth,
            seed: self.seed,
        }
    }
}

/// What the one who starts a run has said of it.
#[derive(Debug)]
pub struct Generate {
    pub root_dir: PathBuf,
    pub num_files: NonZeroU64,
    pub files_exact: bool,
    pub num_bytes: u64,
    pub fill_byte: Option<u8>,
    pub bytes_exact: bool,
    pub exact: bool,
    pub max_depth: u32,
    pub file_to_dir_ratio: Option<NonZeroU64>,
    pub seed: u64,
}

impl Generator {
    /// A generator in the making, with the defaults: no exact totals, no
    /// bytes, five levels of directories, seed zero.
    pub fn builder() -> (builder: GeneratorBuilder<(), ()>)
        ensures
            builder == (GeneratorBuilder {
                root_dir: (),
                num_files_with_ratio: (),
                files_exact: false,
                num_bytes: 0,
                fill_byte: None,
                bytes_exact: false,
                max_depth: 5,
                seed: 0,
            }),
    {
        GeneratorBuilder {
            root_dir: (),
            num_files_with_ratio: (),
            files_exact: false,
            num_bytes: 0,
            fill_byte: None,
            bytes_exact: false,
            max_depth: 5,
            seed: 0,
        }
    }

    /// The generator for what was said of the run, unless there are to be
    /// more files for every directory than there are files. Where no ratio
    /// was given, the default is taken.
    pub fn try_from(options: Generate) -> (result: Result<Self, NumFilesWithRatioError>)
        ensures
            match result {
                Ok(generator) => {
                    &&& generator@.root_dir == options.root_dir
                    &&& generator@.files_exact == options.files_exact
                    &&& generator@.num_bytes == options.num_bytes
                    &&& generator@.fill_byte == options.fill_byte
                    &&& generator@.bytes_exact == options.bytes_exact
                    &&& generator@.max_depth == options.max_depth
                    &&& generator@.seed == options.seed
                    &&& generator@.num_files_with_ratio.spec_num_files() == options.num_files@
                    &&& generator@.num_files_with_ratio.spec_file_to_dir_ratio()
                        == match options.file_to_dir_ratio {
                        Some(ratio) => ratio@,
                        None => spec_default_ratio(options.num_files@),
                    }
                    &&& options.file_to_dir_ratio matches Some(ratio) ==> ratio@
                        <= options.num_files@
                },
                Err(
                    NumFilesWithRatioError::InvalidRatio { num_files, file_to_dir_ratio },
                ) => {
                    &&& options.file_to_dir_ratio matches Some(ratio)
                    &&& ratio@ > options.num_files@
                    &&& file_to_dir_ratio@ == ratio@
                    &&& num_files@ == options.num_files@
                },
            },
    {
        let Generate {
            root_dir,
            num_files,
            files_exact,
            num_bytes,
            fill_byte,
            bytes_exact,
            exact: _,
            max_depth,
            file_to_dir_ratio,
            seed,
        } = options;
        let builder = Self::builder();
        let builder = builder.root_dir(root_dir);
        let builder = builder.files_exact(files_exact);
        let builder = builder.num_bytes(num_bytes);
        let builder = builder.bytes_exact(bytes_exact);
        let builder = builder.max_depth(max_depth);
        let builder = builder.seed(seed);
        let builder = builder.maybe_fill_byte(fill_byte);
        let builder = match file_to_dir_ratio {
            Some(ratio) => match NumFilesWithRatio::new(num_files, ratio) {
                Ok(with_ratio) => builder.num_files_with_ratio(with_ratio),
                Err(e) => {
                    return Err(e);
                },
            },
            None => builder.num_files_with_ratio(NumFilesWithRatio::from_num_files(num_files)),
        };
        Ok(builder.build())
    }

    /// The directory below which the tree is made.
    pub fn root_dir(&self) -> (root_dir: &PathBuf)
        ensures
            *root_dir == self@.root_dir,
    {
        &self.root_dir
    }

    /// The number of files and how many there are for every directory.
    pub fn num_files_with_ratio(&self) -> (value: NumFilesWithRatio)
        ensures
            value == self@.num_files_with_ratio,
    {
        self.num_files_with_ratio
    }

    /// Whether the run makes exactly the number of files asked for.
    pub fn files_exact(&self) -> (files_exact: bool)
        ensures
            files_exact == self@.files_exact,
    {
        self.files_exact
    }

    /// Number of bytes that the files hold in all.
    pub fn num_bytes(&self) -> (num_bytes: u64)
        ensures
            num_bytes == self@.num_bytes,
    {
        self.num_bytes
    }

    /// The byte that fills the files, if there is one.
    pub fn fill_byte(&self) -> (fill_byte: Option<u8>)
        ensures
            fill_byte == self@.fill_byte,
    {
        self.fill_byte
    }

    /// Whether the run writes exactly the number of bytes asked for.
    pub fn bytes_exact(&self) -> (bytes_exact: bool)
        ensures
            bytes_exact == self@.bytes_exact,
    {
        self.bytes_exact
    }

    /// Number of levels of directories that the tree may have.
    pub fn max_depth(&self) -> (max_depth: u32)
        ensures
            max_depth == self@.max_depth,
    {
        self.max_depth
    }

    /// The seed of the run.
    pub fn seed(&self) -> (seed: u64)
        ensures
            seed == self@.seed,
    {
        self.seed
    }

    /// The task generator of a run that promises no exact totals. Its files
    /// get bytes when the run is asked for any.
    pub fn dynamic_generator(&self) -> (generator: DynamicGenerator)
        ensures
            generator.bytes == if self@.num_bytes > 0 {
                Some(GeneratorBytes { fill_byte: self@.fill_byte })
            } else {
                None
            },
    {
        DynamicGenerator {
            bytes: if self.num_bytes > 0 {
                Some(GeneratorBytes { fill_byte: self.fill_byte })
            } else {
                None
            },
        }
    }

    /// The task generator of a run that promises exact totals, if this run
    /// does: the number of files, where that is to be exact, and the number
    /// of bytes, where that is to be exact and is not zero.
    pub fn static_generator(&self) -> (generator: Option<StaticGenerator>)
        ensures
            generator is Some <==> self@.files_exact || (self@.bytes_exact && self@.num_bytes > 0),
            generator matches Some(generator) ==> {
                &&& generator.spec_wf()
                &&& generator.spec_ready()
                &&& generator.spec_fresh()
                &&& generator.spec_owed_files() == if self@.files_exact {
                    Some(self@.num_files_with_ratio.spec_num_files() as nat)
                } else {
                    None
                }
                &&& generator.spec_owed_bytes() == if self@.bytes_exact && self@.num_bytes > 0 {
                    Some(self@.num_bytes as nat)
                } else {
                    None
                }
                &&& generator.dynamic.bytes == if self@.num_bytes > 0 {
                    Some(GeneratorBytes { fill_byte: self@.fill_byte })
                } else {
                    None
                }
            },
    {
        let files_exact: Option<NonZeroU64> = if self.files_exact {
            NonZeroU64::new(self.num_files_with_ratio.num_files())
        } else {
            None
        };
        let bytes_exact: Option<NonZeroU64> = if self.bytes_exact {
            NonZeroU64::new(self.num_bytes)
        } else {
            None
        };
        if files_exact.is_some() || bytes_exact.is_some() {
            Some(StaticGenerator::new(self.dynamic_generator(), files_exact, bytes_exact))
        } else {
            None
        }
    }
}

} // verus!
