use query_core::catalogs::database_catalog::CatalogOperation;
use query_core::catalogs::database_catalog::DatabaseCatalog;
use query_core::catalogs::database_catalog::Layer;
use query_core::catalogs::database_catalog::Lookup;
use query_core::datavalues::data_type::DataType;
use query_core::error::ErrorCode;
use query_core::error::ErrorKind;
use query_core::interpreters::interpreter_copy_v2::filter_files_by_pattern;
use query_core::interpreters::interpreter_copy_v2::select_files;
use query_core::interpreters::interpreter_copy_v2::CopyInterpreterV2;
use query_core::interpreters::interpreter_copy_v2::CopyPlanV2;
use query_core::interpreters::interpreter_copy_v2::FileListing;
use query_core::interpreters::interpreter_copy_v2::ReadDataSourcePlan;
use query_core::interpreters::interpreter_copy_v2::SourceInfo;
use query_core::interpreters::interpreter_copy_v2::StageTableInfo;
use query_core::interpreters::processor_executor_stream::ProcessorExecutorStream;
use query_core::meta::user_stage::CopyOptions;
use query_core::meta::user_stage::FileFormatOptions;
use query_core::meta::user_stage::OnErrorMode;
use query_core::meta::user_stage::StageFileCompression;
use query_core::meta::user_stage::StageFileFormatType;
use query_core::meta::user_stage::StageParams;
use query_core::meta::user_stage::StageType;
use query_core::meta::user_stage::StorageParams;
use query_core::meta::user_stage::UserStageInfo;
use query_core::planner::plans::ColumnBinding;
use query_core::procedures::fuse_segment::FuseSegmentProcedure;
use query_core::procedures::fuse_segment::ProcedureFeatures;
use query_core::text::join_path;
use query_core::text::parse_u64;
use query_core::text::str_eq;

type Catalog = DatabaseCatalog<&'static str, &'static str, u8>;

fn stage(stage_type: StageType, name: &str) -> UserStageInfo {
    UserStageInfo {
        stage_name: name.to_string(),
        stage_type,
        stage_params: StageParams {
            storage: StorageParams::Memory,
        },
        file_format_options: FileFormatOptions::default(),
        copy_options: CopyOptions::default(),
        comment: String::new(),
        number_of_files: 0,
        creator: None,
    }
}

#[test]
fn names_of_compressions() {
    assert_eq!(
        StageFileCompression::from_str("GZip"),
        Ok(StageFileCompression::Gzip)
    );
    assert_eq!(
        StageFileCompression::from_str("auto"),
        Ok(StageFileCompression::Auto)
    );
    assert_eq!(
        StageFileCompression::from_str("RAW_DEFLATE"),
        Ok(StageFileCompression::RawDeflate)
    );
    assert_eq!(
        StageFileCompression::from_str("rawdeflate"),
        Ok(StageFileCompression::RawDeflate)
    );
    assert_eq!(
        StageFileCompression::from_str("NONE"),
        Ok(StageFileCompression::Uncompressed)
    );
    for (name, compression) in [
        ("bz2", StageFileCompression::Bz2),
        ("brotli", StageFileCompression::Brotli),
        ("zstd", StageFileCompression::Zstd),
        ("deflate", StageFileCompression::Deflate),
        ("lzo", StageFileCompression::Lzo),
        ("snappy", StageFileCompression::Snappy),
        ("xz", StageFileCompression::Xz),
    ] {
        assert_eq!(StageFileCompression::from_lowercase(name), Ok(compression));
    }
    assert_eq!(
        StageFileCompression::from_str("zip"),
        Err("Unknown file compression type, must one of { auto | gzip | bz2 | brotli | zstd | deflate | raw_deflate | lzo | snappy | xz | none }".to_string())
    );
    // The name is taken in lower case only.
    assert!(StageFileCompression::from_lowercase("GZIP").is_err());
    assert_eq!(
        StageFileCompression::default(),
        StageFileCompression::Uncompressed
    );
}

#[test]
fn names_of_formats() {
    assert_eq!(
        StageFileFormatType::from_str("parquet"),
        Ok(StageFileFormatType::Parquet)
    );
    assert_eq!(
        StageFileFormatType::from_str("Csv"),
        Ok(StageFileFormatType::Csv)
    );
    for (name, format) in [
        ("JSON", StageFileFormatType::Json),
        ("AVRO", StageFileFormatType::Avro),
        ("ORC", StageFileFormatType::Orc),
        ("XML", StageFileFormatType::Xml),
    ] {
        assert_eq!(StageFileFormatType::from_uppercase(name), Ok(format));
    }
    assert_eq!(
        StageFileFormatType::from_str("tsv"),
        Err(
            "Unknown file format type, must one of { CSV | JSON | AVRO | ORC | PARQUET | XML }"
                .to_string()
        )
    );
    assert!(StageFileFormatType::from_uppercase("csv").is_err());
    assert_eq!(StageFileFormatType::default(), StageFileFormatType::Csv);
}

#[test]
fn names_of_error_modes() {
    assert_eq!(OnErrorMode::from_str(""), Ok(OnErrorMode::Unset));
    assert_eq!(OnErrorMode::from_str("continue"), Ok(OnErrorMode::Continue));
    assert_eq!(OnErrorMode::from_str("Skip_File"), Ok(OnErrorMode::SkipFile));
    assert_eq!(
        OnErrorMode::from_str("skip_file_12"),
        Ok(OnErrorMode::SkipFileNum(12))
    );
    assert_eq!(OnErrorMode::from_str("7"), Ok(OnErrorMode::SkipFileNum(7)));
    assert_eq!(
        OnErrorMode::from_str("abort_statement"),
        Err("Unknown OnError mode:\"ABORT_STATEMENT\", must one of { CONTINUE | SKIP_FILE | SKIP_FILE_<num> | ABORT_STATEMENT }".to_string())
    );
    assert!(OnErrorMode::from_str("skip_file_x").is_err());
    assert_eq!(
        OnErrorMode::from_parts("SKIP_FILE_3", Some(3)),
        Some(OnErrorMode::SkipFileNum(3))
    );
    assert_eq!(OnErrorMode::from_parts("SKIP_FILE_3", None), None);
    assert_eq!(
        OnErrorMode::from_parts("CONTINUE", Some(3)),
        Some(OnErrorMode::Continue)
    );
    assert_eq!(OnErrorMode::default(), OnErrorMode::Unset);
}

#[test]
fn defaults_of_stages() {
    let options = FileFormatOptions::default();
    assert_eq!(options.format, StageFileFormatType::Csv);
    assert_eq!(options.skip_header, 0);
    assert_eq!(options.field_delimiter, ",");
    assert_eq!(options.record_delimiter, "\n");
    assert_eq!(options.compression, StageFileCompression::Uncompressed);
    assert_eq!(
        CopyOptions::default(),
        CopyOptions {
            on_error: OnErrorMode::Unset,
            size_limit: 0
        }
    );
    assert_eq!(StageType::default(), StageType::External);
    assert_eq!(StageType::Internal.to_string(), "Internal");
    assert_eq!(StageType::External.to_string(), "External");
}

#[test]
fn prefixes_of_stages() {
    assert_eq!(stage(StageType::External, "s1").get_prefix(), "/");
    assert_eq!(stage(StageType::Internal, "s1").get_prefix(), "/stage/s1/");
    assert_eq!(stage(StageType::Internal, "").get_prefix(), "/stage//");
}

#[test]
fn case_of_database_names() {
    assert!(Catalog::is_case_insensitive_db("information_schema"));
    assert!(Catalog::is_case_insensitive_db("Information_Schema"));
    assert!(Catalog::is_case_insensitive_db("INFORMATION_SCHEMA"));
    assert!(!Catalog::is_case_insensitive_db("default"));
    assert!(!Catalog::is_case_insensitive_db("information_schema2"));
    assert_eq!(
        Catalog::routed_name("Tables", "information_schema"),
        "TABLES"
    );
    assert_eq!(Catalog::routed_name("Tables", "default"), "Tables");
}

#[test]
fn layers_of_the_catalog() {
    let catalog = Catalog::create("system", "meta", 3);
    assert_eq!(*catalog.immutable_catalog(), "system");
    assert_eq!(*catalog.mutable_catalog(), "meta");
    assert_eq!(*catalog.table_function_factory(), 3);
    assert_eq!(
        Catalog::check_tenant(CatalogOperation::GetDatabase, "")
            .unwrap_err()
            .kind,
        ErrorKind::TenantIsEmpty
    );
    assert_eq!(
        Catalog::check_tenant(CatalogOperation::GetDatabase, "")
            .unwrap_err()
            .message,
        "Tenant can not empty(while get database)"
    );
    assert!(Catalog::check_tenant(CatalogOperation::GetDatabase, "t").is_ok());
    assert!(Catalog::check_tenant(CatalogOperation::GetTableByInfo, "").is_ok());
    assert!(Catalog::check_tenant(CatalogOperation::UpdateTableMeta, "").is_ok());
    let unknown_database = || ErrorCode::create(ErrorKind::UnknownDatabase, "no such database");
    let unknown_table = || ErrorCode::create(ErrorKind::UnknownTable, "no such table");
    assert_eq!(
        Catalog::after_upper_layer(CatalogOperation::GetDatabase, Ok(5)),
        Lookup::Found(5)
    );
    assert_eq!(
        Catalog::after_upper_layer::<u8>(CatalogOperation::GetDatabase, Err(unknown_database())),
        Lookup::TryMutable
    );
    assert_eq!(
        Catalog::after_upper_layer::<u8>(CatalogOperation::GetDatabase, Err(unknown_table())),
        Lookup::Failed(unknown_table())
    );
    // A table is looked for below where the database is unknown above.
    assert_eq!(
        Catalog::after_upper_layer::<u8>(CatalogOperation::GetTable, Err(unknown_database())),
        Lookup::TryMutable
    );
    assert_eq!(
        Catalog::after_upper_layer::<u8>(CatalogOperation::GetTable, Err(unknown_table())),
        Lookup::Failed(unknown_table())
    );
    assert_eq!(
        Catalog::after_upper_layer::<u8>(CatalogOperation::GetTableByInfo, Err(unknown_table())),
        Lookup::TryMutable
    );
    assert_eq!(
        Catalog::after_upper_layer::<u8>(
            CatalogOperation::GetTableMetaById,
            Err(ErrorCode::create(ErrorKind::LogicalError, "broken"))
        ),
        Lookup::TryMutable
    );
    assert_eq!(
        Catalog::after_upper_layer::<u8>(CatalogOperation::CountTables, Err(unknown_database())),
        Lookup::Failed(unknown_database())
    );
    assert_eq!(
        Catalog::layer_for_write(CatalogOperation::CreateDatabase, "db", false, false),
        Ok(Layer::Mutable)
    );
    let exists = Catalog::layer_for_write(CatalogOperation::CreateDatabase, "system", true, false)
        .unwrap_err();
    assert_eq!(exists.kind, ErrorKind::DatabaseAlreadyExists);
    assert_eq!(exists.message, "system database exists");
    assert_eq!(
        Catalog::layer_for_write(CatalogOperation::DropTable, "system", true, false),
        Ok(Layer::Immutable)
    );
    assert_eq!(
        Catalog::layer_for_write(CatalogOperation::DropTable, "db", false, false),
        Ok(Layer::Mutable)
    );
    assert_eq!(
        Catalog::layer_for_write(CatalogOperation::RenameDatabase, "db", false, true),
        Ok(Layer::Immutable)
    );
    assert_eq!(
        Catalog::layer_for_write(CatalogOperation::RenameTable, "db", false, true)
            .unwrap_err()
            .kind,
        ErrorKind::UnImplement
    );
    assert_eq!(
        Catalog::layer_for_write(CatalogOperation::RenameTable, "db", false, false),
        Ok(Layer::Mutable)
    );
    assert_eq!(
        Catalog::layer_for_write(CatalogOperation::CountTables, "db", true, true),
        Ok(Layer::Mutable)
    );
}

fn stage_read(path: &str) -> ReadDataSourcePlan {
    ReadDataSourcePlan {
        catalog: "default".to_string(),
        source_info: SourceInfo::StageSource(StageTableInfo {
            schema: vec![],
            stage_info: stage(StageType::External, "s"),
            path: path.to_string(),
            files: vec!["old".to_string()],
        }),
    }
}

#[test]
fn files_of_a_copy() {
    assert_eq!(
        CopyInterpreterV2::<()>::list_files(
            &stage_read("/data"),
            &vec!["a.csv".to_string(), "sub/b.csv".to_string()]
        )
        .unwrap(),
        FileListing::Listed(vec!["/data/a.csv".to_string(), "/data/sub/b.csv".to_string()])
    );
    assert_eq!(
        CopyInterpreterV2::<()>::list_files(&stage_read("/data/a.csv"), &vec![]).unwrap(),
        FileListing::CheckObject {
            path: "/data/a.csv".to_string()
        }
    );
    assert_eq!(
        CopyInterpreterV2::<()>::list_files(&stage_read("/data/"), &vec![]).unwrap(),
        FileListing::ListObjects {
            path: "/data/".to_string()
        }
    );
    assert_eq!(
        CopyInterpreterV2::<()>::list_files(&stage_read(""), &vec![]).unwrap(),
        FileListing::CheckObject {
            path: String::new()
        }
    );
    let table_read = ReadDataSourcePlan {
        catalog: "default".to_string(),
        source_info: SourceInfo::TableSource {
            table_name: "t".to_string(),
        },
    };
    assert_eq!(
        CopyInterpreterV2::<()>::list_files(&table_read, &vec![])
            .unwrap_err()
            .kind,
        ErrorKind::LogicalError
    );
    let rewritten = CopyInterpreterV2::<()>::rewrite_read_plan_file_name(
        stage_read("/data/"),
        vec!["new".to_string()],
    );
    match rewritten.source_info {
        SourceInfo::StageSource(info) => {
            assert_eq!(info.files, vec!["new".to_string()]);
            assert_eq!(info.path, "/data/");
        }
        _ => panic!("expected a stage"),
    }
    let untouched =
        CopyInterpreterV2::<()>::rewrite_read_plan_file_name(table_read, vec!["new".to_string()]);
    assert!(matches!(
        untouched.source_info,
        SourceInfo::TableSource { .. }
    ));
}

#[test]
fn files_are_filtered_by_the_pattern() {
    let files = || {
        vec![
            "a.csv".to_string(),
            "b.parquet".to_string(),
            "dir/c.csv".to_string(),
        ]
    };
    assert_eq!(filter_files_by_pattern(files(), "").unwrap(), files());
    assert_eq!(
        filter_files_by_pattern(files(), r".*\.csv$").unwrap(),
        vec!["a.csv".to_string(), "dir/c.csv".to_string()]
    );
    assert_eq!(
        filter_files_by_pattern(files(), "^b").unwrap(),
        vec!["b.parquet".to_string()]
    );
    assert_eq!(
        filter_files_by_pattern(files(), "nothing").unwrap(),
        Vec::<String>::new()
    );
    let error = filter_files_by_pattern(files(), "(unclosed").unwrap_err();
    assert_eq!(error.kind, ErrorKind::SyntaxException);
    assert_eq!(error.message, "Pattern format invalid, got:(unclosed");
    assert_eq!(
        select_files(files(), &vec![false, true, true]),
        vec!["b.parquet".to_string(), "dir/c.csv".to_string()]
    );
}

#[test]
fn the_copy_interpreter() {
    let interpreter = CopyInterpreterV2::try_create(
        7u8,
        CopyPlanV2::IntoStage {
            stage: stage(StageType::Internal, "s"),
            columns: vec![],
        },
    )
    .unwrap();
    assert_eq!(interpreter.name(), "CopyInterpreterV2");
    assert_eq!(*interpreter.ctx(), 7);
    assert!(matches!(interpreter.plan(), CopyPlanV2::IntoStage { .. }));
    let binding = |name: &str, index: usize, data_type: DataType| ColumnBinding {
        database_name: None,
        table_name: None,
        column_name: name.to_string(),
        index,
        data_type,
        visible_in_unqualified_wildcard: true,
    };
    let fields = CopyInterpreterV2::<()>::stage_schema(&vec![
        binding("a", 0, DataType::Int8),
        binding("b", 4, DataType::String),
    ]);
    assert_eq!(fields.len(), 2);
    assert_eq!(fields[0].name(), "a");
    assert_eq!(fields[0].data_type(), &DataType::Int8);
    assert_eq!(fields[1].name(), "b");
    assert_eq!(fields[1].data_type(), &DataType::String);
}

#[test]
fn the_stream_of_an_executor() {
    type Stream = ProcessorExecutorStream<u8>;
    assert_eq!(Stream::next_item(Ok(Some(3))), Some(Ok(3)));
    assert_eq!(Stream::next_item::<u8>(Ok(None)), None);
    let cause = ErrorCode::create(ErrorKind::LogicalError, "stopped");
    assert_eq!(
        Stream::next_item::<u8>(Err(cause.clone())),
        Some(Err(cause))
    );
    let mut stream = Stream::create(9).unwrap();
    *stream.executor() += 1;
    assert_eq!(*stream.executor(), 10);
}

#[test]
fn the_fuse_segment_procedure() {
    let procedure = FuseSegmentProcedure::try_create().unwrap();
    assert_eq!(procedure.name(), "FUSE_SEGMENT");
    assert_eq!(
        procedure.features(),
        ProcedureFeatures {
            num_arguments: 3,
            management_mode_required: false
        }
    );
    let arguments = procedure
        .arguments(&vec!["db".to_string(), "t".to_string(), "snap".to_string()])
        .unwrap();
    assert_eq!(arguments.database_name, "db");
    assert_eq!(arguments.table_name, "t");
    assert_eq!(arguments.snapshot_id, "snap");
    assert_eq!(
        procedure
            .arguments(&vec!["db".to_string()])
            .unwrap_err()
            .kind,
        ErrorKind::LogicalError
    );
}

#[test]
fn numbers_are_read_as_the_standard_library_reads_them() {
    for text in [
        "0",
        "7",
        "007",
        "+5",
        "18446744073709551615",
        "18446744073709551616",
        "99999999999999999999999",
        "",
        "+",
        "-1",
        "-0",
        "1 ",
        " 1",
        "1_000",
        "12a",
        "a12",
        "++1",
        "1+",
        "٣",
    ] {
        assert_eq!(parse_u64(text), text.parse::<u64>().ok(), "{:?}", text);
    }
    assert_eq!(parse_u64("18446744073709551615"), Some(u64::MAX));
    assert_eq!(parse_u64("18446744073709551616"), None);
}

#[test]
fn error_modes_with_numbers() {
    assert_eq!(
        OnErrorMode::from_str("skip_file_+5"),
        Ok(OnErrorMode::SkipFileNum(5))
    );
    assert_eq!(
        OnErrorMode::from_str("SKIP_FILE_SKIP_FILE_5"),
        Ok(OnErrorMode::SkipFileNum(5))
    );
    assert_eq!(
        OnErrorMode::from_str("1skip_file_2"),
        Ok(OnErrorMode::SkipFileNum(12))
    );
    assert!(OnErrorMode::from_str("skip_file_").is_err());
    assert!(OnErrorMode::from_str("skip_file_99999999999999999999").is_err());
    assert!(OnErrorMode::from_str("skip_file_5%").is_err());
}

#[test]
fn paths_are_joined_with_a_slash() {
    for (base, file) in [
        ("/data", "a.csv"),
        ("/data/", "a.csv"),
        ("/data", "sub/b.csv"),
        ("/data", "/abs/c.csv"),
        ("", "a.csv"),
        ("", ""),
        ("/data", ""),
        ("/data/", ""),
        ("/", "a"),
        ("a", "b"),
    ] {
        assert_eq!(
            join_path(base, file),
            std::path::Path::new(base)
                .join(file)
                .to_string_lossy()
                .to_string(),
            "{:?} {:?}",
            base,
            file
        );
    }
    assert_eq!(join_path("/data", "a.csv"), "/data/a.csv");
    assert_eq!(join_path("/data", "/a.csv"), "/a.csv");
    assert!(str_eq("a", "a"));
    assert!(!str_eq("a", "A"));
}

#[test]
fn an_empty_tenant_is_refused_with_the_name_of_the_operation() {
    let cases = [
        (CatalogOperation::GetDatabase, "Tenant can not empty(while get database)"),
        (CatalogOperation::ListDatabases, "Tenant can not empty(while list databases)"),
        (CatalogOperation::CreateDatabase, "Tenant can not empty(while create database)"),
        (CatalogOperation::DropDatabase, "Tenant can not empty(while drop database)"),
        (CatalogOperation::RenameDatabase, "Tenant can not empty(while rename database)"),
        (CatalogOperation::GetTable, "Tenant can not empty(while get table)"),
        (CatalogOperation::ListTables, "Tenant can not empty(while list tables)"),
        (CatalogOperation::ListTablesHistory, "Tenant can not empty(while list tables)"),
        (CatalogOperation::CreateTable, "Tenant can not empty(while create table)"),
        (CatalogOperation::DropTable, "Tenant can not empty(while drop table)"),
        (CatalogOperation::UndropTable, "Tenant can not empty(while undrop table)"),
        (CatalogOperation::UndropDatabase, "Tenant can not empty(while undrop database)"),
        (CatalogOperation::RenameTable, "Tenant can not empty(while rename table)"),
        (CatalogOperation::CountTables, "Tenant can not empty(while count tables)"),
    ];
    for (operation, message) in cases {
        let error = DatabaseCatalog::<u8, u8, u8>::check_tenant(operation, "").unwrap_err();
        assert_eq!(error.kind, ErrorKind::TenantIsEmpty);
        assert_eq!(error.message, message);
        assert!(DatabaseCatalog::<u8, u8, u8>::check_tenant(operation, "tenant").is_ok());
    }
}
