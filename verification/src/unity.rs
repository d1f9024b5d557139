//! Titles as a directory of titles lists them, and the choice among the
//! titles that it lists for one id.

use crate::text::{hex_of, hex_upper};
use vstd::prelude::*;
use vstd::string::StringExecFns;

verus! {

/// The kind of a title.
#[derive(Clone, Copy, Debug, PartialEq, Eq, Structural)]
pub enum TitleType {
    Xbox,
    Xbox360,
    Xbla,
    Xbox1,
}

impl TitleType {
    /// The kind in words.
    pub open spec fn spec_describe(self) -> Seq<char> {
        match self {
            TitleType::Xbox => "Xbox title"@,
            TitleType::Xbox360 => "Xbox 360 title"@,
            TitleType::Xbla => "Xbox Live Arcade title"@,
            TitleType::Xbox1 => "Xbox One title"@,
        }
    }

    /// The kind in words.
    pub fn describe(self) -> (text: &'static str)
        ensures
            text@ == self.spec_describe(),
    {
        match self {
            TitleType::Xbox => "Xbox title",
            TitleType::Xbox360 => "Xbox 360 title",
            TitleType::Xbla => "Xbox Live Arcade title",
            TitleType::Xbox1 => "Xbox One title",
        }
    }
}

/// One title of a list.
#[derive(Debug)]
pub struct Title {
    pub title_id: String,
    pub hb_title_id: String,
    pub name: String,
    pub link_enabled: bool,
    pub title_type: TitleType,
    pub covers: u32,
    pub updates: u32,
    pub media_id_count: String,
    pub user_count: String,
    pub newest_content: String,
}

impl Title {
    /// The title in three lines: its kind, its id and its name.
    pub open spec fn spec_describe(&self) -> Seq<char> {
        "    Type: "@ + self.title_type.spec_describe() + "\nTitle ID: "@ + self.title_id@
            + "\n    Name: "@ + self.name@
    }

    /// The title in three lines: its kind, its id and its name.
    pub fn describe(&self) -> (text: String)
        ensures
            text@ == self.spec_describe(),
    {
        let mut text = String::from_str("    Type: ");
        text.append(self.title_type.describe());
        text.append("\nTitle ID: ");
        text.append(self.title_id.as_str());
        text.append("\n    Name: ");
        text.append(self.name.as_str());
        text
    }
}

/// One page of the titles that a search has found.
#[derive(Debug)]
pub struct TitleList {
    pub items: Vec<Title>,
    pub count: u32,
    pub pages: u32,
    pub page: u32,
}

/// The index of the first title from `from` on that has the id `title_id`
/// and the kind `title_type`.
pub open spec fn first_of_type(
    items: Seq<Title>,
    title_id: Seq<char>,
    title_type: TitleType,
    from: int,
) -> Option<int>
    decreases items.len() - from,
{
    if from < 0 || from >= items.len() {
        None
    } else if items[from].title_id@ == title_id && items[from].title_type == title_type {
        Some(from)
    } else {
        first_of_type(items, title_id, title_type, from + 1)
    }
}

/// The index of the title that is chosen for the id `title_id`: the first
/// title of the console with that id, or, where there is none, the first
/// arcade title with that id. Titles of other kinds are not chosen.
pub open spec fn best_title(items: Seq<Title>, title_id: Seq<char>) -> Option<int> {
    match first_of_type(items, title_id, TitleType::Xbox360, 0) {
        Some(i) => Some(i),
        None => first_of_type(items, title_id, TitleType::Xbla, 0),
    }
}

/// An index that `first_of_type` gives lies in the list.
proof fn lemma_first_of_type(
    items: Seq<Title>,
    title_id: Seq<char>,
    title_type: TitleType,
    from: int,
)
    requires
        first_of_type(items, title_id, title_type, from) is Some,
    ensures
        0 <= first_of_type(items, title_id, title_type, from)->Some_0 < items.len(),
        from <= first_of_type(items, title_id, title_type, from)->Some_0,
        items[first_of_type(items, title_id, title_type, from)->Some_0].title_id@ == title_id,
        items[first_of_type(items, title_id, title_type, from)->Some_0].title_type == title_type,
    decreases items.len() - from,
{
    if 0 <= from < items.len() && !(items[from].title_id@ == title_id && items[from].title_type
        == title_type) {
        lemma_first_of_type(items, title_id, title_type, from + 1);
    }
}

/// The index of the first title with the id `title_id` and the kind
/// `title_type`.
pub fn find_of_type(items: &Vec<Title>, title_id: &String, title_type: TitleType) -> (index:
    Option<usize>)
    ensures
        match index {
            Some(i) => first_of_type(items@, title_id@, title_type, 0) == Some(i as int),
            None => first_of_type(items@, title_id@, title_type, 0) is None,
        },
{
    let n: usize = items.len();
    let mut i: usize = 0;
    while i < n
        invariant
            i <= n,
            n == items@.len(),
            first_of_type(items@, title_id@, title_type, 0) == first_of_type(
                items@,
                title_id@,
                title_type,
                i as int,
            ),
        decreases n - i,
    {
        if items[i].title_id == *title_id && items[i].title_type == title_type {
            return Some(i);
        }
        i += 1;
    }
    None
}

/// The id of a title as a list has it: eight hexadecimal digits in upper
/// case.
pub fn title_id_text(title_id: &[u8; 4]) -> (text: String)
    ensures
        text@ == hex_of(title_id@),
{
    hex_upper(title_id.as_slice())
}

/// Chooses from a list the title with the id `title_id`: the first title
/// of the console with that id, or, where there is none, the first arcade
/// title with that id.
pub fn find_xbox_360_title_id(title_list: TitleList, title_id: &[u8; 4]) -> (title: Option<Title>)
    ensures
        match best_title(title_list.items@, hex_of(title_id@)) {
            Some(i) => title == Some(title_list.items@[i]),
            None => title is None,
        },
{
    let wanted = title_id_text(title_id);
    let mut items = title_list.items;
    let index = match find_of_type(&items, &wanted, TitleType::Xbox360) {
        Some(i) => Some(i),
        None => find_of_type(&items, &wanted, TitleType::Xbla),
    };
    proof {
        if first_of_type(items@, wanted@, TitleType::Xbox360, 0) is Some {
            lemma_first_of_type(items@, wanted@, TitleType::Xbox360, 0);
        } else if first_of_type(items@, wanted@, TitleType::Xbla, 0) is Some {
            lemma_first_of_type(items@, wanted@, TitleType::Xbla, 0);
        }
    }
    match index {
        Some(i) => Some(items.remove(i)),
        None => None,
    }
}

} // verus!
