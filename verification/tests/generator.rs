use std::path::PathBuf;

use ftzz::{Generate, Generator, NonZeroU64, NumFilesWithRatio, NumFilesWithRatioError};

#[test]
fn minimal_params_succeeds() {
    let g = Generator::builder()
        .root_dir(PathBuf::from("abc"))
        .num_files_with_ratio(NumFilesWithRatio::from_num_files(
            NonZeroU64::new(1).unwrap(),
        ))
        .build();

    assert_eq!(*g.root_dir(), PathBuf::from("abc"));
    assert_eq!(g.num_files_with_ratio().num_files(), 1);
    assert!(!g.files_exact());
    assert_eq!(g.num_bytes(), 0);
    assert!(!g.bytes_exact());
    assert_eq!(g.max_depth(), 5);
    assert_eq!(g.num_files_with_ratio().file_to_dir_ratio(), 1);
    assert_eq!(g.seed(), 0);
}

#[test]
fn ratio_greater_than_num_files_fails() {
    let r = NumFilesWithRatio::new(NonZeroU64::new(1).unwrap(), NonZeroU64::new(2).unwrap());

    r.unwrap_err();
}

#[test]
fn params_are_mapped_correctly() {
    let options = Generate {
        root_dir: PathBuf::from("abc"),
        num_files: NonZeroU64::new(373).unwrap(),
        num_bytes: 637,
        fill_byte: None,
        max_depth: 43,
        file_to_dir_ratio: Some(NonZeroU64::new(37).unwrap()),
        seed: 775,
        files_exact: false,
        bytes_exact: false,
        exact: false,
    };

    let generator = Generator::try_from(options).unwrap();
    let hack = format!("{generator:?}");

    assert!(hack.contains("root_dir: \"abc\""));
    assert!(hack.contains("num_files: 373"));
    assert!(hack.contains("num_bytes: 637"));
    assert!(hack.contains("max_depth: 43"));
    assert!(hack.contains("file_to_dir_ratio: 37"));
    assert!(hack.contains("seed: 775"));
}

#[test]
fn ratio_equal_to_num_files_is_accepted() {
    let r = NumFilesWithRatio::new(NonZeroU64::new(7).unwrap(), NonZeroU64::new(7).unwrap())
        .unwrap();
    assert_eq!(r.num_files(), 7);
    assert_eq!(r.file_to_dir_ratio(), 7);
}

#[test]
fn invalid_ratio_reports_both_numbers() {
    let e = NumFilesWithRatio::new(NonZeroU64::new(3).unwrap(), NonZeroU64::new(12).unwrap())
        .unwrap_err();
    let NumFilesWithRatioError::InvalidRatio {
        num_files,
        file_to_dir_ratio,
    } = e;
    assert_eq!(num_files.get(), 3);
    assert_eq!(file_to_dir_ratio.get(), 12);
    assert_eq!(
        e.message(),
        "The file to dir ratio (12) cannot be larger than the number of files to generate (3)."
    );
}

#[test]
fn default_ratio_is_a_thousandth_of_the_files() {
    let ratio = |n: u64| {
        NumFilesWithRatio::from_num_files(NonZeroU64::new(n).unwrap()).file_to_dir_ratio()
    };
    assert_eq!(ratio(1), 1);
    assert_eq!(ratio(999), 1);
    assert_eq!(ratio(1_000), 1);
    assert_eq!(ratio(1_999), 1);
    assert_eq!(ratio(2_000), 2);
    assert_eq!(ratio(1_000_000), 1_000);
}

#[test]
fn non_zero_rejects_zero_only() {
    assert!(NonZeroU64::new(0).is_none());
    assert_eq!(NonZeroU64::new(1).unwrap().get(), 1);
    assert_eq!(NonZeroU64::new(u64::MAX).unwrap().get(), u64::MAX);
}

#[test]
fn missing_ratio_takes_the_default() {
    let options = Generate {
        root_dir: PathBuf::from("root"),
        num_files: NonZeroU64::new(5_000).unwrap(),
        num_bytes: 0,
        fill_byte: Some(42),
        max_depth: 2,
        file_to_dir_ratio: None,
        seed: 1,
        files_exact: true,
        bytes_exact: false,
        exact: false,
    };
    let generator = Generator::try_from(options).unwrap();
    assert_eq!(generator.num_files_with_ratio().file_to_dir_ratio(), 5);
    assert_eq!(generator.fill_byte(), Some(42));
    assert!(generator.files_exact());
}

#[test]
fn too_large_a_ratio_is_refused_when_mapping() {
    let options = Generate {
        root_dir: PathBuf::from("root"),
        num_files: NonZeroU64::new(5).unwrap(),
        num_bytes: 0,
        fill_byte: None,
        max_depth: 2,
        file_to_dir_ratio: Some(NonZeroU64::new(6).unwrap()),
        seed: 1,
        files_exact: false,
        bytes_exact: false,
        exact: false,
    };
    assert!(Generator::try_from(options).is_err());
}

#[test]
fn generators_follow_the_exact_flags() {
    let make = |files_exact: bool, bytes: u64, bytes_exact: bool| {
        Generator::builder()
            .root_dir(PathBuf::from("root"))
            .num_files_with_ratio(NumFilesWithRatio::from_num_files(
                NonZeroU64::new(100).unwrap(),
            ))
            .files_exact(files_exact)
            .num_bytes(bytes)
            .bytes_exact(bytes_exact)
            .fill_byte(7)
            .build()
    };

    let g = make(false, 0, false);
    assert!(g.static_generator().is_none());
    assert!(g.dynamic_generator().bytes.is_none());

    let g = make(false, 10, false);
    assert!(g.static_generator().is_none());
    assert_eq!(g.dynamic_generator().bytes.unwrap().fill_byte, Some(7));

    // No bytes to hand out: nothing to be exact about.
    let g = make(false, 0, true);
    assert!(g.static_generator().is_none());

    let s = make(true, 0, false).static_generator().unwrap();
    assert_eq!(s.files_exact, Some(100));
    assert_eq!(s.bytes_exact, None);
    assert!(!s.done);
    assert_eq!(s.root_num_files_hack, None);

    let s = make(false, 10, true).static_generator().unwrap();
    assert_eq!(s.files_exact, None);
    assert_eq!(s.bytes_exact, Some(10));
    assert_eq!(s.dynamic.bytes.unwrap().fill_byte, Some(7));

    let s = make(true, 10, true).static_generator().unwrap();
    assert_eq!(s.files_exact, Some(100));
    assert_eq!(s.bytes_exact, Some(10));
}

#[test]
fn errors_have_their_messages() {
    assert_eq!(
        ftzz::Error::TaskJoin.message(),
        "Failed to retrieve subtask results."
    );
    assert_eq!(ftzz::Error::Io.message(), "An IO error occurred in a subtask.");
    assert_eq!(
        ftzz::Error::InvalidEnvironment.message(),
        "Failed to achieve valid generator environment."
    );
    assert_eq!(
        ftzz::Error::RuntimeCreation.message(),
        "Failed to create the async runtime."
    );
    assert_eq!(ftzz::CliError::Generator.message(), "File generator failed.");
    assert_eq!(
        ftzz::CliError::InvalidArgs.message(),
        "An argument combination was invalid."
    );
}
