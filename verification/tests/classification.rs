use plexisort::category::{
    archive_extension, categorize, document_kind, label_of, mime_kind, office_extension, Category,
    DocumentKind, MimeKind,
};
use plexisort::compressed_file_processor::CompressedFileProcessor;
use plexisort::document_processor::DocumentProcessor;
use plexisort::generic_processor::GenericProcessor;
use plexisort::image_processor::{
    dated_folder_of, format_date_to_path, image_subfolder_of, month_folder_of,
    stamp_month_folder_of, ImageProcessor, LocalDate,
};
use plexisort::organizer::{MoveAction, Reply};
use plexisort::processing_mode::ProcessingMode;
use plexisort::traits::{
    choose_processor, classify, place_file, processor_for, DefaultProcessorFactory, FileProcessor,
    Processor, ProcessorFactory, SourceFile, TestProcessorFactory,
};
use plexisort::video_processor::VideoProcessor;
use plexisort::virtual_directory::VirtualDirectory;

fn file(path: &str) -> SourceFile {
    SourceFile { path: path.to_string(), capture_time: None, modified: None }
}

fn segments(items: &[&str]) -> Vec<String> {
    items.iter().map(|s| s.to_string()).collect()
}

fn document_folder(name: &str) -> String {
    DocumentProcessor.get_destination_subfolder(&file(name))
}

#[test]
fn test_processor_selection() {
    let mut factory = TestProcessorFactory { last_processor_type: None };
    let document_file = "/tmp/work/source/test.docx";
    let image_file = "/tmp/work/source/test.png";

    factory.create_processor(document_file);
    assert_eq!(
        factory.last_processor_type,
        Some("DocumentProcessor".to_string()),
        "DocumentProcessor was not selected for .docx files."
    );

    factory.create_processor(image_file);
    assert_eq!(
        factory.last_processor_type,
        Some("ImageProcessor".to_string()),
        "ImageProcessor was not selected for .png files."
    );
}

#[test]
fn the_test_factory_knows_four_extensions() {
    let mut factory = TestProcessorFactory { last_processor_type: None };
    assert_eq!(factory.create_processor("a.JPG"), FileProcessor::Image(ImageProcessor));
    assert_eq!(factory.create_processor("a.txt"), FileProcessor::Document(DocumentProcessor));
    assert_eq!(factory.last_processor_type, Some("DocumentProcessor".to_string()));
    assert_eq!(factory.create_processor("a.pdf"), FileProcessor::Generic(GenericProcessor));
    assert_eq!(factory.last_processor_type, Some("UnknownProcessor".to_string()));
    assert_eq!(factory.create_processor("a"), FileProcessor::Generic(GenericProcessor));
}

#[test]
fn media_kinds_are_told_by_the_top_level_type() {
    assert_eq!(mime_kind("image"), MimeKind::Image);
    assert_eq!(mime_kind("video"), MimeKind::Video);
    assert_eq!(mime_kind("text"), MimeKind::Text);
    assert_eq!(mime_kind("application"), MimeKind::Application);
    assert_eq!(mime_kind("audio"), MimeKind::Other);
    assert_eq!(mime_kind(""), MimeKind::Other);
    assert_eq!(mime_kind("Image"), MimeKind::Other);
}

#[test]
fn word_documents_by_extension() {
    assert_eq!(document_folder("a.doc"), "Documents/Word_Documents");
    assert_eq!(document_folder("a.docx"), "Documents/Word_Documents");
    assert_eq!(document_kind("doc"), DocumentKind::Word);
    assert_eq!(document_kind("docx"), DocumentKind::Word);
}

#[test]
fn excel_spreadsheets_by_extension() {
    assert_eq!(document_folder("a.xls"), "Documents/Excel_Spreadsheets");
    assert_eq!(document_folder("a.xlsx"), "Documents/Excel_Spreadsheets");
}

#[test]
fn powerpoint_presentations_by_extension() {
    assert_eq!(document_folder("a.ppt"), "Documents/PowerPoint_Presentations");
    assert_eq!(document_folder("a.pptx"), "Documents/PowerPoint_Presentations");
}

#[test]
fn csv_files_by_extension() {
    assert_eq!(document_folder("a.csv"), "Documents/CSV_Files");
}

#[test]
fn config_files_by_extension() {
    assert_eq!(document_folder("a.json"), "Documents/Config_Files");
    assert_eq!(document_folder("a.yaml"), "Documents/Config_Files");
    assert_eq!(document_folder("a.yml"), "Documents/Config_Files");
}

#[test]
fn pdfs_by_extension() {
    assert_eq!(document_folder("a.pdf"), "Documents/PDFs");
}

#[test]
fn web_pages_by_extension() {
    assert_eq!(document_folder("a.html"), "Documents/Web_Pages");
}

#[test]
fn text_files_by_extension() {
    assert_eq!(document_folder("a.txt"), "Documents/Text_Files");
}

#[test]
fn other_documents_are_uncategorized() {
    assert_eq!(document_folder("a.md"), "Documents/Uncategorized_Documents");
    assert_eq!(document_folder("a"), "Documents/Uncategorized_Documents");
    assert_eq!(document_folder("a.htm"), "Documents/Uncategorized_Documents");
}

#[test]
fn extensions_are_matched_without_regard_to_case() {
    assert_eq!(document_folder("REPORT.DOCX"), "Documents/Word_Documents");
    assert_eq!(document_folder("Sheet.XlS"), "Documents/Excel_Spreadsheets");
    assert_eq!(document_folder("a.PDF"), "Documents/PDFs");
}

#[test]
fn labels_of_document_kinds() {
    assert_eq!(label_of(DocumentKind::Word), "Word_Documents");
    assert_eq!(label_of(DocumentKind::Excel), "Excel_Spreadsheets");
    assert_eq!(label_of(DocumentKind::PowerPoint), "PowerPoint_Presentations");
    assert_eq!(label_of(DocumentKind::Csv), "CSV_Files");
    assert_eq!(label_of(DocumentKind::Config), "Config_Files");
    assert_eq!(label_of(DocumentKind::Pdf), "PDFs");
    assert_eq!(label_of(DocumentKind::Web), "Web_Pages");
    assert_eq!(label_of(DocumentKind::Text), "Text_Files");
    assert_eq!(label_of(DocumentKind::Uncategorized), "Uncategorized_Documents");
}

#[test]
fn determine_destination_dir_goes_below_documents() {
    assert_eq!(
        DocumentProcessor.determine_destination_dir("docx", "/out"),
        "/out/Documents/Word_Documents"
    );
    assert_eq!(
        DocumentProcessor.determine_destination_dir("DOCX", "/out"),
        "/out/Documents/Uncategorized_Documents"
    );
    assert_eq!(DocumentProcessor.determine_destination_dir("txt", ""), "Documents/Text_Files");
}

#[test]
fn the_media_kind_decides_before_the_extension() {
    assert_eq!(categorize(MimeKind::Image, "docx"), Category::Image);
    assert_eq!(categorize(MimeKind::Video, "zip"), Category::Video);
    assert_eq!(categorize(MimeKind::Text, "zip"), Category::Document(DocumentKind::Uncategorized));
    assert_eq!(categorize(MimeKind::Text, "csv"), Category::Document(DocumentKind::Csv));
    assert_eq!(categorize(MimeKind::Other, "docx"), Category::Other);
    assert_eq!(categorize(MimeKind::Other, "zip"), Category::Other);
}

#[test]
fn application_types_are_told_apart_by_extension() {
    for ext in ["pdf", "doc", "docx", "ppt", "pptx", "xlsx", "xls", "json", "yml"] {
        assert!(office_extension(ext));
        assert_eq!(categorize(MimeKind::Application, ext), Category::Document(document_kind(ext)));
    }
    for ext in ["zip", "tar", "rar", "7z"] {
        assert!(archive_extension(ext));
        assert_eq!(categorize(MimeKind::Application, ext), Category::Compressed);
    }
    for ext in ["csv", "yaml", "html", "txt", "exe", "", "gz"] {
        assert!(!office_extension(ext));
        assert!(!archive_extension(ext));
        assert_eq!(categorize(MimeKind::Application, ext), Category::Other);
    }
}

#[test]
fn each_category_has_its_processor() {
    assert_eq!(processor_for(Category::Image), FileProcessor::Image(ImageProcessor));
    assert_eq!(processor_for(Category::Video), FileProcessor::Video(VideoProcessor));
    assert_eq!(
        processor_for(Category::Document(DocumentKind::Pdf)),
        FileProcessor::Document(DocumentProcessor)
    );
    assert_eq!(
        processor_for(Category::Compressed),
        FileProcessor::Compressed(CompressedFileProcessor)
    );
    assert_eq!(processor_for(Category::Other), FileProcessor::Generic(GenericProcessor));
}

#[test]
fn fixed_folders() {
    let any = file("/in/whatever.bin");
    assert_eq!(VideoProcessor.get_destination_subfolder(&any), "Videos");
    assert_eq!(CompressedFileProcessor.get_destination_subfolder(&any), "Compressed_Files");
    assert_eq!(GenericProcessor.get_destination_subfolder(&any), "Other_Files");
}

#[test]
fn classify_gives_category_and_folder() {
    assert_eq!(
        classify(&file("/in/report.docx"), MimeKind::Application),
        (Category::Document(DocumentKind::Word), "Documents/Word_Documents".to_string())
    );
    assert_eq!(
        classify(&file("/in/a.zip"), MimeKind::Application),
        (Category::Compressed, "Compressed_Files".to_string())
    );
    assert_eq!(
        classify(&file("/in/a.bin"), MimeKind::Application),
        (Category::Other, "Other_Files".to_string())
    );
    assert_eq!(
        classify(&file("/in/a.mp4"), MimeKind::Video),
        (Category::Video, "Videos".to_string())
    );
    assert_eq!(
        classify(&file("/in/a.png"), MimeKind::Image),
        (Category::Image, "Images/Unknown".to_string())
    );
    assert_eq!(
        classify(&file("/in/a.docx"), MimeKind::Other),
        (Category::Other, "Other_Files".to_string())
    );
}

#[test]
fn the_processor_follows_the_type_that_was_guessed() {
    assert_eq!(choose_processor("image", "a.txt"), FileProcessor::Image(ImageProcessor));
    assert_eq!(choose_processor("text", "a.zip"), FileProcessor::Document(DocumentProcessor));
    assert_eq!(
        choose_processor("application", "a.ZIP"),
        FileProcessor::Compressed(CompressedFileProcessor)
    );
    assert_eq!(choose_processor("application", "a.bin"), FileProcessor::Generic(GenericProcessor));
    assert_eq!(choose_processor("audio", "a.mp3"), FileProcessor::Generic(GenericProcessor));
}

#[test]
fn the_default_factory_guesses_by_extension() {
    let mut factory = DefaultProcessorFactory;
    assert_eq!(factory.create_processor("/in/c.png"), FileProcessor::Image(ImageProcessor));
    assert_eq!(factory.create_processor("/in/c.JPG"), FileProcessor::Image(ImageProcessor));
    assert_eq!(factory.create_processor("/in/v.mp4"), FileProcessor::Video(VideoProcessor));
    assert_eq!(factory.create_processor("/in/b.txt"), FileProcessor::Document(DocumentProcessor));
    assert_eq!(factory.create_processor("/in/r.docx"), FileProcessor::Document(DocumentProcessor));
    assert_eq!(factory.create_processor("/in/x.pdf"), FileProcessor::Document(DocumentProcessor));
    assert_eq!(
        factory.create_processor("/in/a.zip"),
        FileProcessor::Compressed(CompressedFileProcessor)
    );
    assert_eq!(factory.create_processor("/in/a.mp3"), FileProcessor::Generic(GenericProcessor));
    assert_eq!(factory.create_processor("/in/noext"), FileProcessor::Generic(GenericProcessor));
    assert_eq!(factory.create_processor("/in/a.qqqq"), FileProcessor::Generic(GenericProcessor));
}

#[test]
fn capture_time_gives_year_and_month() {
    assert_eq!(format_date_to_path("2023:11:05 10:00:00"), "2023/11 - November");
    assert_eq!(format_date_to_path("1999:01:31 23:59:59"), "1999/01 - January");
    assert_eq!(format_date_to_path("  2020:12:01"), "2020/12 - December");
}

#[test]
fn image_with_capture_time_goes_to_its_month() {
    let image = SourceFile {
        path: "/in/p.jpg".to_string(),
        capture_time: Some("2023:11:05 10:00:00".to_string()),
        modified: Some(LocalDate { year: 2001, month: 2 }),
    };
    assert_eq!(ImageProcessor.get_destination_subfolder(&image), "Images/2023/11 - November");
    assert_eq!(
        classify(&image, MimeKind::Image),
        (Category::Image, "Images/2023/11 - November".to_string())
    );
}

#[test]
fn an_unknown_month_is_called_unknown() {
    assert_eq!(format_date_to_path("2023:13:05 10:00:00"), "2023/UnknownMonth");
    assert_eq!(format_date_to_path("2023:00:05"), "2023/UnknownMonth");
    assert_eq!(format_date_to_path("2023:1:05"), "2023/UnknownMonth");
    assert_eq!(format_date_to_path("2023"), "2023/UnknownMonth");
}

#[test]
fn an_unknown_year_is_called_unknown() {
    assert_eq!(format_date_to_path("garbage"), "UnknownYear/UnknownMonth");
    assert_eq!(format_date_to_path("2023-11-05 10:00:00"), "UnknownYear/UnknownMonth");
    assert_eq!(format_date_to_path(":11:05 10:00:00"), "UnknownYear/11 - November");
    assert_eq!(format_date_to_path("20x3:11:05"), "UnknownYear/11 - November");
    assert_eq!(format_date_to_path("-5:01:01"), "UnknownYear/01 - January");
    assert_eq!(format_date_to_path("/etc:01"), "UnknownYear/01 - January");
    assert_eq!(format_date_to_path("0987:02:01"), "0987/02 - February");
}

#[test]
fn a_blank_capture_time_gives_unknown_year_and_month() {
    assert_eq!(format_date_to_path(""), "UnknownYear/UnknownMonth");
    assert_eq!(format_date_to_path("   "), "UnknownYear/UnknownMonth");
}

#[test]
fn every_month_has_its_folder() {
    let names = [
        "January", "February", "March", "April", "May", "June", "July", "August", "September",
        "October", "November", "December",
    ];
    for (i, name) in names.iter().enumerate() {
        let number = format!("{:02}", i + 1);
        let folder = format!("{} - {}", number, name);
        assert_eq!(stamp_month_folder_of(&number), folder);
        assert_eq!(month_folder_of(i as u32 + 1), folder);
    }
    assert_eq!(month_folder_of(0), "UnknownMonth");
    assert_eq!(month_folder_of(13), "UnknownMonth");
    assert_eq!(stamp_month_folder_of("13"), "UnknownMonth");
}

#[test]
fn image_without_capture_time_goes_by_its_last_change() {
    assert_eq!(dated_folder_of(LocalDate { year: 2024, month: 3 }), "2024/03 - March");
    assert_eq!(dated_folder_of(LocalDate { year: 987, month: 12 }), "987/12 - December");
    assert_eq!(dated_folder_of(LocalDate { year: -5, month: 1 }), "-5/01 - January");
    assert_eq!(dated_folder_of(LocalDate { year: 0, month: 10 }), "0/10 - October");
    assert_eq!(
        dated_folder_of(LocalDate { year: i32::MIN, month: 6 }),
        "-2147483648/06 - June"
    );
    assert_eq!(
        image_subfolder_of(&None, Some(LocalDate { year: 2024, month: 3 })),
        "Images/2024/03 - March"
    );
}

#[test]
fn image_of_unknown_age_goes_to_unknown() {
    assert_eq!(image_subfolder_of(&None, None), "Images/Unknown");
}

#[test]
fn a_capture_time_cannot_lead_out_of_the_images_folder() {
    assert_eq!(
        image_subfolder_of(&Some("/etc:01".to_string()), None),
        "Images/UnknownYear/01 - January"
    );
    assert_eq!(
        image_subfolder_of(&Some("../..:01".to_string()), None),
        "Images/UnknownYear/01 - January"
    );
}

#[test]
fn report_goes_below_the_destination_root() {
    let mut mode = ProcessingMode::Live;
    let run = DocumentProcessor.process(&file("/in/report.docx"), "/out", &mut mode).unwrap();
    assert_eq!(run.plan.source, "/in/report.docx");
    assert_eq!(run.plan.destination, "/out/Documents/Word_Documents/report.docx");
    assert_eq!(run.folder, "/out/Documents/Word_Documents");
    assert!(matches!(mode, ProcessingMode::Live));
}

fn moved_to(processor: &FileProcessor, source: &SourceFile, destination: &str) -> String {
    let mut mode = ProcessingMode::Live;
    let mut run = processor.process(source, destination, &mut mode).unwrap();
    let mut made = Vec::new();
    let mut target = None;
    loop {
        match run.action() {
            MoveAction::CreateDirectories { path } => made.push(path),
            MoveAction::Rename { from, to } => {
                assert_eq!(from, source.path);
                assert!(made.iter().any(|dir| to.starts_with(dir.as_str())));
                target = Some(to);
            }
            MoveAction::AppendLog { line } => assert!(line.ends_with('\n')),
            MoveAction::Finished(outcome) => {
                assert_eq!(outcome, Ok(()));
                break;
            }
        }
        run.advance(Reply::Yes);
    }
    target.unwrap()
}

#[test]
fn test_compressed_file_processor_live() {
    let source = file("/tmp/work/source/archive.zip");
    let moved = moved_to(
        &FileProcessor::Compressed(CompressedFileProcessor),
        &source,
        "/tmp/work/destination",
    );
    assert_eq!(
        moved, "/tmp/work/destination/Compressed_Files/archive.zip",
        "Compressed file was not moved to the correct destination in Live mode."
    );
}

#[test]
fn test_document_processor_live() {
    let source = file("/tmp/work/source/test_document.txt");
    let moved =
        moved_to(&FileProcessor::Document(DocumentProcessor), &source, "/tmp/work/destination");
    assert_eq!(
        moved, "/tmp/work/destination/Documents/Text_Files/test_document.txt",
        "Document was not moved to the correct destination in Live mode."
    );
}

#[test]
fn test_document_processor_logic() {
    let source = file("/tmp/work/source/test_document.txt");
    let mut mode = ProcessingMode::Live;
    let run = DocumentProcessor.process(&source, "/tmp/work/destination", &mut mode).unwrap();
    assert_eq!(
        run.plan.destination, "/tmp/work/destination/Documents/Text_Files/test_document.txt",
        "Document was not moved to the correct destination in Live mode."
    );
}

#[test]
fn test_generic_processor_live() {
    let source = file("/tmp/work/source/generic_file.txt");
    let moved =
        moved_to(&FileProcessor::Generic(GenericProcessor), &source, "/tmp/work/destination");
    assert_eq!(
        moved, "/tmp/work/destination/Other_Files/generic_file.txt",
        "Generic file was not moved to the correct destination in Live mode."
    );
}

#[test]
fn test_image_processor_live() {
    let source = SourceFile {
        path: "/tmp/work/source/photo1.png".to_string(),
        capture_time: None,
        modified: Some(LocalDate { year: 2024, month: 3 }),
    };
    let moved = moved_to(&FileProcessor::Image(ImageProcessor), &source, "/tmp/work/destination");
    let expected_date_dir = format!("{}/{} - {}", 2024, format!("{:02}", 3), "March");
    assert_eq!(
        moved,
        format!("/tmp/work/destination/Images/{}/photo1.png", expected_date_dir),
        "Image was not moved to the correct destination in Live mode."
    );
}

#[test]
fn test_video_processor_live() {
    let source = file("/tmp/work/source/test_video.mp4");
    let moved = moved_to(&FileProcessor::Video(VideoProcessor), &source, "/tmp/work/destination");
    assert_eq!(
        moved, "/tmp/work/destination/Videos/test_video.mp4",
        "Document was not moved to the correct destination in Live mode."
    );
}

#[test]
fn a_dry_run_over_three_files_fills_the_tree_and_moves_nothing() {
    let mut mode = ProcessingMode::DryRun(VirtualDirectory::default());
    let mut factory = DefaultProcessorFactory;
    for name in ["a.zip", "b.txt", "c.png"] {
        let source = SourceFile {
            path: format!("/in/{}", name),
            capture_time: None,
            modified: Some(LocalDate { year: 2024, month: 3 }),
        };
        let processor = factory.create_processor(&source.path);
        let run = processor.process(&source, "", &mut mode);
        assert!(run.is_none());
    }
    let tree = match mode {
        ProcessingMode::DryRun(tree) => tree,
        ProcessingMode::Live => panic!("the run was dry"),
    };
    assert!(tree.contains_file(&segments(&["Compressed_Files", "a.zip"])));
    assert!(tree.contains_file(&segments(&["Documents", "Text_Files", "b.txt"])));
    assert!(tree.contains_file(&segments(&["Images", "2024", "03 - March", "c.png"])));
    let expected = "\
├── Compressed_Files
│   └── a.zip
├── Documents
│   └── Text_Files
│       └── b.txt
└── Images
    └── 2024
        └── 03 - March
            └── c.png
";
    assert_eq!(tree.print_tree(), expected);
}

#[test]
fn a_dry_run_files_the_whole_destination_path() {
    let mut mode = ProcessingMode::DryRun(VirtualDirectory::default());
    let run = place_file("/in/x.pdf", "/out", "Documents/PDFs", &mut mode);
    assert!(run.is_none());
    match mode {
        ProcessingMode::DryRun(tree) => {
            assert!(tree.contains_file(&segments(&["/", "out", "Documents", "PDFs", "x.pdf"])));
        }
        ProcessingMode::Live => panic!("the run was dry"),
    }
}

#[test]
fn a_file_is_processed_by_what_the_factory_picks() {
    let mut factory = TestProcessorFactory { last_processor_type: None };
    let mut mode = ProcessingMode::Live;
    let run = plexisort::file_processor::process_file(
        &mut factory,
        &file("/in/notes.txt"),
        "/out",
        &mut mode,
    )
    .unwrap();
    assert_eq!(run.plan.destination, "/out/Documents/Text_Files/notes.txt");
    assert_eq!(factory.last_processor_type, Some("DocumentProcessor".to_string()));
}
