use adit_ui::catalog::Catalog;
use adit_ui::clipboard_files::bridge::ChunkError;
use adit_ui::clipboard_files::descriptor::{
    descriptor_block, descriptor_for, get_data, query_get_data, DataAnswer, DataFormat,
    FormatEnumerator, DESCRIPTOR_BYTES, FD_FILESIZE, FD_PROGRESSUI, FILE_ATTRIBUTE_DIRECTORY,
    FILE_ATTRIBUTE_NORMAL,
};
use adit_ui::clipboard_files::listing::{
    clipboard_image, clipboard_paths, clipboard_sequence, expand, relative_name,
    set_clipboard_image, sorted_names, ClipFile, Node, MAX_CLIPBOARD_IMAGE_BYTES, MAX_DEPTH,
};
use adit_ui::clipboard_files::stream::{FileStream, ReadOutcome, SeekOrigin};
use adit_ui::settings::{Settings, SharedClipboard};
use adit_ui::startup::with_loaded_state;
use adit_ui::terminal::TerminalSize;

fn file(name: &str, size: u64, is_dir: bool) -> ClipFile {
    ClipFile { name: name.to_owned(), size, is_dir }
}

#[test]
fn a_descriptor_advertises_size_and_progress() {
    let descriptor = descriptor_for(&file("a.bin", 8, false));
    assert_eq!(descriptor.flags & FD_FILESIZE, FD_FILESIZE);
    assert_eq!(descriptor.flags & FD_PROGRESSUI, FD_PROGRESSUI);
    assert_eq!(descriptor.size_low, 8);
    assert_eq!(descriptor.size_high, 0);
    assert_eq!(descriptor.attributes, FILE_ATTRIBUTE_NORMAL);
}

#[test]
fn a_size_above_four_gigabytes_survives_the_split() {
    let size = 5_000_000_000u64;
    let descriptor = descriptor_for(&file("big.iso", size, false));
    let recombined = (u64::from(descriptor.size_high) << 32) | u64::from(descriptor.size_low);
    assert_eq!(recombined, size);
}

#[test]
fn a_directory_is_marked_and_carries_no_size() {
    let descriptor = descriptor_for(&file("docs", 0, true));
    assert_eq!(descriptor.attributes & FILE_ATTRIBUTE_DIRECTORY, FILE_ATTRIBUTE_DIRECTORY);
    assert_eq!(descriptor.size_low, 0);
}

#[test]
fn a_name_is_written_as_null_terminated_utf16() {
    let descriptor = descriptor_for(&file("报告\\第一章.docx", 1, false));
    let expected: Vec<u16> = "报告\\第一章.docx".encode_utf16().collect();
    assert_eq!(&descriptor.name[..expected.len()], expected.as_slice());
    assert_eq!(descriptor.name[expected.len()], 0);
}

#[test]
fn a_name_beyond_the_basic_plane_takes_two_units() {
    let descriptor = descriptor_for(&file("😀.txt", 1, false));
    let expected: Vec<u16> = "😀.txt".encode_utf16().collect();
    assert_eq!(&descriptor.name[..expected.len()], expected.as_slice());
    assert_eq!(expected.len(), 6);
}

#[test]
fn an_overlong_name_is_truncated_not_overflowed() {
    let descriptor = descriptor_for(&file(&"x".repeat(500), 1, false));
    assert_eq!(descriptor.name[258], u16::from(b'x'));
    assert_eq!(descriptor.name[259], 0);
}

#[test]
fn descriptors_are_packed_behind_their_count() {
    let files = vec![file("docs", 0, true), file("docs\\a", 5_000_000_000, false)];
    let block = descriptor_block(&files);
    assert_eq!(block.len(), 4 + 2 * DESCRIPTOR_BYTES);
    assert_eq!(block[..4], [2, 0, 0, 0]);
    let second = &block[4 + DESCRIPTOR_BYTES..];
    assert_eq!(second[..4], 0x4044u32.to_le_bytes());
    assert!(second[4..36].iter().all(|byte| *byte == 0));
    assert_eq!(second[36..40], FILE_ATTRIBUTE_NORMAL.to_le_bytes());
    assert!(second[40..64].iter().all(|byte| *byte == 0));
    assert_eq!(second[64..68], 1u32.to_le_bytes());
    assert_eq!(second[68..72], 705_032_704u32.to_le_bytes());
    assert_eq!(second[72..84], *b"d\0o\0c\0s\0\\\0a\0");
    assert_eq!(block[40..44], FILE_ATTRIBUTE_DIRECTORY.to_le_bytes());
    assert!(query_get_data(DataFormat::Contents) && !query_get_data(DataFormat::Other));
}

fn work() -> Node {
    Node::Folder {
        name: String::from("work"),
        children: vec![
            Node::File { name: String::from("a.bin"), size: 8 },
            Node::Folder {
                name: String::from("sub"),
                children: vec![Node::File { name: String::from("b.txt"), size: 5 }],
            },
        ],
    }
}

#[test]
fn a_directory_expands_to_a_flat_relative_list_in_creation_order() {
    let files = expand(&vec![work()]);
    let names: Vec<&str> = files.iter().map(|f| f.name.as_str()).collect();
    assert_eq!(names, ["work", "work\\a.bin", "work\\sub", "work\\sub\\b.txt"]);
    assert!(files[0].is_dir && files[0].size == 0);
    assert_eq!(files[1].size, 8);
    assert!(files[2].is_dir);
    assert_eq!(files[3].size, 5);
}

#[test]
fn a_lone_file_is_offered_under_its_bare_name() {
    let files = expand(&vec![Node::File { name: String::from("a.bin"), size: 8 }]);
    assert_eq!(files.len(), 1);
    assert_eq!(files[0].name, "a.bin");
    assert!(!files[0].is_dir);
}

#[test]
fn what_is_neither_file_nor_folder_is_skipped() {
    assert!(expand(&vec![Node::Other]).is_empty());
    assert!(expand(&Vec::new()).is_empty());
}

#[test]
fn a_tree_is_followed_to_a_fixed_depth() {
    let mut node = Node::File { name: String::from("leaf"), size: 1 };
    for _ in 0..(MAX_DEPTH + 8) {
        node = Node::Folder { name: String::from("d"), children: vec![node] };
    }
    let files = expand(&vec![node]);
    assert_eq!(files.len(), MAX_DEPTH as usize + 1);
    assert!(files.iter().all(|f| f.is_dir));
}

#[test]
fn a_name_is_relative_to_the_folder_of_the_selection() {
    let parts = |list: &[&str]| list.iter().map(|p| String::from(*p)).collect::<Vec<String>>();
    assert_eq!(
        relative_name(&parts(&["home", "work", "a.bin"]), &parts(&["home"])),
        Some(String::from("work\\a.bin"))
    );
    assert_eq!(relative_name(&parts(&["home"]), &parts(&["home"])), None);
    assert_eq!(relative_name(&parts(&["home", "x"]), &parts(&["other"])), None);
}

#[test]
fn names_are_listed_in_order() {
    let names = vec![String::from("b"), String::from("a"), String::from("c")];
    assert_eq!(sorted_names(&names), vec![1, 0, 2]);
}

#[test]
fn an_image_is_offered_while_it_is_not_too_large() {
    assert_eq!(clipboard_image(Some(vec![1, 2, 3])), Some(vec![1, 2, 3]));
    assert_eq!(clipboard_image(None), None);
    assert!(set_clipboard_image(&vec![1]));
    assert!(!set_clipboard_image(&vec![0; MAX_CLIPBOARD_IMAGE_BYTES + 1]));
}

#[test]
fn an_empty_list_of_paths_is_no_offer() {
    assert_eq!(clipboard_paths(Some(Vec::new())), None);
    assert_eq!(clipboard_paths(None), None);
    assert_eq!(
        clipboard_paths(Some(vec![String::from("C:\\a")])),
        Some(vec![String::from("C:\\a")])
    );
    assert_eq!(clipboard_sequence(Some(7)), 7);
    assert_eq!(clipboard_sequence(None), 0);
}

#[test]
fn contents_are_answered_for_files_only() {
    let files = vec![file("docs", 0, true), file("docs\\a", 4, false)];
    assert_eq!(get_data(&files, DataFormat::Descriptors, -1), DataAnswer::Descriptors);
    assert_eq!(
        get_data(&files, DataFormat::Contents, 1),
        DataAnswer::Stream { index: 1, size: 4 }
    );
    assert_eq!(get_data(&files, DataFormat::Contents, 0), DataAnswer::InvalidArgument);
    assert_eq!(get_data(&files, DataFormat::Contents, 2), DataAnswer::InvalidArgument);
    assert_eq!(get_data(&files, DataFormat::Contents, -1), DataAnswer::InvalidArgument);
    assert_eq!(get_data(&files, DataFormat::Other, 0), DataAnswer::UnknownFormat);
}

#[test]
fn formats_are_handed_out_once_each() {
    let mut formats = FormatEnumerator::new(0);
    assert_eq!(
        formats.next(5),
        (vec![DataFormat::Descriptors, DataFormat::Contents], false)
    );
    assert_eq!(formats.next(1), (vec![], false));
    assert_eq!(FormatEnumerator::new(1).next(1), (vec![DataFormat::Contents], true));
    formats.reset();
    assert_eq!(formats.next(1), (vec![DataFormat::Descriptors], true));
    assert!(formats.skip(1));
    assert!(!formats.skip(1));
    assert_eq!(formats.duplicate(), formats);
}

#[test]
fn a_stream_asks_for_no_more_than_there_is() {
    let mut stream = FileStream::new(3, 10, 8);
    assert_eq!(stream.request(100), Some(8));
    assert_eq!(stream.complete(100, Ok(8)), ReadOutcome::Read(8));
    assert_eq!(stream.request(100), Some(2));
    assert_eq!(stream.complete(100, Ok(2)), ReadOutcome::Read(2));
    assert_eq!(stream.request(100), None);
}

#[test]
fn a_failed_read_leaves_the_stream_where_it_was() {
    let mut stream = FileStream::new(3, 10, 8);
    assert_eq!(stream.complete(4, Err(ChunkError::TimedOut)), ReadOutcome::TimedOut);
    assert_eq!(stream.complete(4, Err(ChunkError::Refused)), ReadOutcome::Failed);
    assert_eq!(stream.position, 0);
}

#[test]
fn a_seek_stays_inside_the_numbers() {
    let mut stream = FileStream::new(0, 10, 8);
    assert_eq!(stream.seek(4, SeekOrigin::Start), Some(4));
    assert_eq!(stream.seek(-1, SeekOrigin::Current), Some(3));
    assert_eq!(stream.seek(-2, SeekOrigin::End), Some(8));
    assert_eq!(stream.seek(-11, SeekOrigin::End), None);
    assert_eq!(stream.position, 8);
}

#[test]
fn turning_the_rdp_clipboard_off_drops_what_was_already_captured() {
    let mut clipboard =
        SharedClipboard { on: true, offered: Some(String::from("a password, probably")) };
    clipboard.toggle_rdp_clipboard(false);
    assert!(!clipboard.on);
    assert_eq!(clipboard.offered, None);
}

#[test]
fn the_rdp_clipboard_defaults_to_on() {
    assert!(Settings::default().rdp_clipboard);
    let app = with_loaded_state(
        Catalog { profiles: Vec::new(), groups: Vec::new() },
        &Settings::default(),
        true,
        &None,
        &None,
        TerminalSize::new(80, 24),
        String::new(),
        None,
    );
    assert!(app.clipboard.on && app.settings.rdp_clipboard);
}
