//! What a file identifier says of its file.

use vstd::prelude::*;

verus! {

/// What is declared of a file: its SHA-1, its size, and its mime type.
pub struct ContentFileInfo {
    hash: [u8; 20],
    size: u64,
    mime_type: Vec<u8>,
}

/// The model of a [`ContentFileInfo`].
pub struct FileInfoView {
    pub hash: Seq<u8>,
    pub size: nat,
    pub mime_type: Seq<u8>,
}

impl View for ContentFileInfo {
    type V = FileInfoView;

    closed spec fn view(&self) -> FileInfoView {
        FileInfoView {
            hash: self.hash@,
            size: self.size as nat,
            mime_type: self.mime_type@,
        }
    }
}

impl ContentFileInfo {
    /// The declaration of a file with this SHA-1, size and mime type.
    pub fn new(hash: [u8; 20], size: u64, mime_type: Vec<u8>) -> (info: ContentFileInfo)
        ensures
            info@ == (FileInfoView { hash: hash@, size: size as nat, mime_type: mime_type@ }),
    {
        ContentFileInfo { hash, size, mime_type }
    }

    /// The declared SHA-1, which is also the key of the file in the
    /// registry of downloads.
    pub fn hash(&self) -> (hash: [u8; 20])
        ensures
            hash@ == self@.hash,
    {
        self.hash
    }

    /// The declared size in bytes.
    pub fn size(&self) -> (size: u64)
        ensures
            size == self@.size,
    {
        self.size
    }

    /// The declared mime type.
    pub fn mime_type(&self) -> (mime_type: &[u8])
        ensures
            mime_type@ == self@.mime_type,
    {
        self.mime_type.as_slice()
    }
}

} // verus!
