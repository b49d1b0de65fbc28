use rdfs::inode_block::{
    ContentName, DirContent, FileContent, InodeDir, InodeFile, InodeLinkedDir, InodeLinkedFile,
    InodeType,
};
use rdfs::rdfs_errors::RDFSError;

#[test]
fn test_inode() {
    let block_size = 4096;
    let file_name = ContentName::new("test_file.txt");
    let content = DirContent {
        pointer: 3,
        inode_type: InodeType::Dir,
    };
    let mut inode = InodeDir::new(file_name.clone(), 7, 11, 1, vec![content.clone(), content], 0);
    inode.add_signature([255; 64]);

    // Serialize the inode
    let serialized = inode.to_bytes(block_size);
    println!("Serialized Inode: {:?}", serialized.len());

    // Deserialize back to an inode
    let deserialized = InodeDir::from_bytes(&serialized, block_size).unwrap();

    // Check if the original and deserialized inodes are equal
    assert_eq!(inode.name.as_string(), deserialized.name.as_string());
    assert_eq!(inode.created, deserialized.created);
    assert_eq!(inode.modify, deserialized.modify);
    assert_eq!(inode.size, deserialized.size);
    assert_eq!(inode.total_blocks, deserialized.total_blocks);
    assert_eq!(inode.content, deserialized.content);
    assert_eq!(inode.linked, deserialized.linked);
    assert_eq!(inode.signature, deserialized.signature);
}

#[test]
fn test_inode2() {
    let block_size = 4096;
    let file_name = ContentName::new("test_file.txt");
    let content = FileContent { pointer: 3, blocks: 10 };
    let mut inode = InodeFile::new(file_name.clone(), 7, 11, 1, vec![content.clone(), content], 0);
    inode.add_signature([255; 64]);

    // Serialize the inode
    let serialized = inode.to_bytes(block_size);
    println!("Serialized Inode: {:?}", serialized.len());

    // Deserialize back to an inode
    let deserialized = InodeFile::from_bytes(&serialized, block_size).unwrap();

    // Check if the original and deserialized inodes are equal
    assert_eq!(inode.name.as_string(), deserialized.name.as_string());
    assert_eq!(inode.created, deserialized.created);
    assert_eq!(inode.modify, deserialized.modify);
    assert_eq!(inode.size, deserialized.size);
    assert_eq!(inode.total_blocks, deserialized.total_blocks);
    assert_eq!(inode.content, deserialized.content);
    assert_eq!(inode.linked, deserialized.linked);
    assert_eq!(inode.signature, deserialized.signature);
}

#[test]
fn test_linked_inode() {
    let block_size = 4096;
    let linked_inode = InodeLinkedDir::new(vec![], 0);

    // Serialize the linked inode
    let serialized = linked_inode.to_bytes(block_size);
    println!("Serialized LinkedInode: {:?}", serialized.len());

    // Deserialize back to a linked inode
    let deserialized = InodeLinkedDir::from_bytes(&serialized, block_size).unwrap();

    // Check if the original and deserialized linked inodes are equal
    assert_eq!(linked_inode.content, deserialized.content);
    assert_eq!(linked_inode.linked, deserialized.linked);
    assert_eq!(linked_inode.signature, deserialized.signature);
}

#[test]
fn inode_serialized_length_is_block_size() {
    let inode = InodeDir::new(ContentName::new("d"), 1, 2, 3, vec![], 0);
    assert_eq!(inode.to_bytes(4096).len(), 4096);
    let linked = InodeLinkedFile::new(vec![FileContent { pointer: 9, blocks: 2 }], 7);
    assert_eq!(linked.to_bytes(2048).len(), 2048);
}

#[test]
fn linked_file_inode_round_trip() {
    let entries = vec![
        FileContent { pointer: 10, blocks: 4 },
        FileContent { pointer: 90, blocks: 1 },
    ];
    let mut inode = InodeLinkedFile::new(entries.clone(), 55);
    inode.add_signature([3u8; 64]);
    let serialized = inode.to_bytes(4096);
    let parsed = InodeLinkedFile::from_bytes(&serialized, 4096).unwrap();
    assert_eq!(parsed.content, entries);
    assert_eq!(parsed.linked, 55);
    assert_eq!(parsed.signature, [3u8; 64]);
}

#[test]
fn inode_length_errors() {
    let inode = InodeDir::new(ContentName::new("x"), 1, 2, 3, vec![], 0);
    let serialized = inode.to_bytes(4096);
    assert_eq!(
        InodeDir::from_bytes(&serialized, 2048).unwrap_err(),
        RDFSError::InvalidInodeBlockLength
    );
    let mut wrong = serialized.clone();
    wrong[1064] = 0xff; // declared content count beyond the capacity
    wrong[1065] = 0xff;
    assert_eq!(
        InodeDir::from_bytes(&wrong, 4096).unwrap_err(),
        RDFSError::InvalidEncodedInodeBlockLength
    );
}

#[test]
fn unknown_inode_type_tag_reads_as_file() {
    let entry = DirContent { pointer: 5, inode_type: InodeType::File };
    let mut bytes = entry.to_bytes();
    bytes[8] = 7; // any nonzero tag decodes as a file
    let parsed = DirContent::from_bytes(&bytes);
    assert_eq!(parsed.inode_type, InodeType::File);
    assert_eq!(parsed.pointer, 5);
    assert_eq!(InodeType::from(0), InodeType::Dir);
    assert_eq!(InodeType::from(1), InodeType::File);
    assert_eq!(InodeType::from(99), InodeType::File);
}

#[test]
fn content_name_round_trip_multilingual() {
    let name = "файл-👍-测试.txt";
    let stored = ContentName::new(name);
    let parsed = ContentName::from_bytes(&stored.to_bytes());
    assert_eq!(parsed.as_string(), name);
    assert_eq!(stored.to_bytes().len(), 1024);
}

#[test]
fn content_name_truncates_to_255_code_points() {
    let long: String = std::iter::repeat('a').take(300).collect();
    let stored = ContentName::new(&long);
    assert_eq!(stored.length, 255);
    assert_eq!(stored.as_string().chars().count(), 255);
}

#[test]
fn content_name_invalid_scalar_renders_replacement() {
    let mut stored = ContentName::new("a");
    stored.name[0] = 0xD800; // a surrogate is no Unicode scalar
    assert_eq!(stored.as_string(), "\u{FFFD}");
}
