//! Where the files of a container go: the names of the directories and
//! files, from the identity of the title and the content type.

use crate::executable::TitleExecutionInfo;
use crate::god::con_header::ContentType;
use crate::text::{append_decimal4, decimal4, format_hex8, hex8};
use vstd::prelude::*;
use vstd::string::StringExecFns;

verus! {

/// Names the files of one container. Each path is a list of components
/// below the directory that the caller writes to.
pub struct FileLayout {
    exe_info: TitleExecutionInfo,
    content_type: ContentType,
}

impl FileLayout {
    /// The identity that the names come from.
    pub closed spec fn spec_exe_info(&self) -> TitleExecutionInfo {
        self.exe_info
    }

    /// The content type that the names come from.
    pub closed spec fn spec_content_type(&self) -> ContentType {
        self.content_type
    }

    /// The name of the title's directory: the title id.
    pub open spec fn spec_title_id_string(&self) -> Seq<char> {
        hex8(self.spec_exe_info().title_id)
    }

    /// The name of the directory below it: the code of the content type.
    pub open spec fn spec_content_type_string(&self) -> Seq<char> {
        hex8(self.spec_content_type().spec_code())
    }

    /// The name that the header file has: the media id, or the title id
    /// where the title is of the older console.
    pub open spec fn spec_media_id_string(&self) -> Seq<char> {
        match self.spec_content_type() {
            ContentType::GamesOnDemand => hex8(self.spec_exe_info().media_id),
            ContentType::XboxOriginal => hex8(self.spec_exe_info().title_id),
        }
    }

    /// The components of the data directory's path.
    pub open spec fn spec_data_dir_path(&self) -> Seq<Seq<char>> {
        seq![
            self.spec_title_id_string(),
            self.spec_content_type_string(),
            self.spec_media_id_string() + ".data"@,
        ]
    }

    /// The components of the path of the part file with index `part_index`.
    pub open spec fn spec_part_file_path(&self, part_index: u64) -> Seq<Seq<char>> {
        self.spec_data_dir_path().push("Data"@ + decimal4(part_index as nat))
    }

    /// The components of the header file's path.
    pub open spec fn spec_con_header_file_path(&self) -> Seq<Seq<char>> {
        seq![
            self.spec_title_id_string(),
            self.spec_content_type_string(),
            self.spec_media_id_string(),
        ]
    }

    pub fn new(exe_info: &TitleExecutionInfo, content_type: ContentType) -> (layout: FileLayout)
        ensures
            layout.spec_exe_info() == *exe_info,
            layout.spec_content_type() == content_type,
    {
        FileLayout { exe_info: *exe_info, content_type }
    }

    /// The title id as eight hexadecimal digits.
    pub fn title_id_string(&self) -> (text: String)
        ensures
            text@ == self.spec_title_id_string(),
    {
        format_hex8(self.exe_info.title_id)
    }

    /// The code of the content type as eight hexadecimal digits.
    pub fn content_type_string(&self) -> (text: String)
        ensures
            text@ == self.spec_content_type_string(),
    {
        format_hex8(self.content_type.code())
    }

    /// The media id as eight hexadecimal digits; for a title of the older
    /// console, which has none, the title id.
    pub fn media_id_string(&self) -> (text: String)
        ensures
            text@ == self.spec_media_id_string(),
    {
        match self.content_type {
            ContentType::GamesOnDemand => format_hex8(self.exe_info.media_id),
            ContentType::XboxOriginal => format_hex8(self.exe_info.title_id),
        }
    }

    /// The path of the directory that holds the part files.
    pub fn data_dir_path(&self) -> (path: Vec<String>)
        ensures
            path@.len() == 3,
            forall|i: int| 0 <= i < 3 ==> (#[trigger] path@[i])@ == self.spec_data_dir_path()[i],
    {
        let mut path: Vec<String> = Vec::new();
        path.push(self.title_id_string());
        path.push(self.content_type_string());
        path.push(self.media_id_string().concat(".data"));
        path
    }

    /// The path of the part file with index `part_index`.
    pub fn part_file_path(&self, part_index: u64) -> (path: Vec<String>)
        ensures
            path@.len() == 4,
            forall|i: int|
                0 <= i < 4 ==> (#[trigger] path@[i])@ == self.spec_part_file_path(part_index)[i],
    {
        let mut path = self.data_dir_path();
        let mut name = String::from_str("Data");
        append_decimal4(&mut name, part_index);
        path.push(name);
        path
    }

    /// The path of the header file.
    pub fn con_header_file_path(&self) -> (path: Vec<String>)
        ensures
            path@.len() == 3,
            forall|i: int|
                0 <= i < 3 ==> (#[trigger] path@[i])@ == self.spec_con_header_file_path()[i],
    {
        let mut path: Vec<String> = Vec::new();
        path.push(self.title_id_string());
        path.push(self.content_type_string());
        path.push(self.media_id_string());
        path
    }
}

} // verus!
