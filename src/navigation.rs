//! Turning the compiler's answer to a click on the preview into a target
//! the editor can act on.

use vstd::prelude::*;

use crate::position::{byte_position_to_char_position, chars_starting_before, utf8_len};
use crate::world::{FileIdentity, FileRegistry};

verus! {

/// typst's point in document units, carried through as it is.
#[verifier::external_type_specification]
#[verifier::external_body]
pub struct ExPoint(typst::layout::Point);

/// Where the compiler says a click leads.
pub enum JumpTarget {
    /// A byte offset in a file.
    File(FileIdentity, usize),
    /// A point on a page of the document (pages counted from 1).
    Position(usize, typst::layout::Point),
    /// An external resource.
    Url(String),
}

/// A jump to a character offset in a file on the host.
pub struct FileJump {
    pub file: String,
    pub position: usize,
}

/// A jump to a point on a page (counted from 1), in document units.
pub struct PositionJump {
    pub page: usize,
    pub point: typst::layout::Point,
}

/// A jump to an external resource.
pub struct UrlJump {
    pub url: String,
}

/// What a click on the preview leads to.
pub enum DocumentClickResponse {
    FileJump(FileJump),
    PositionJump(PositionJump),
    UrlJump(UrlJump),
    NoJump,
}

impl FileRegistry {
    /// The response to a click for which the compiler gave `jump`; a file
    /// offset is turned into a character offset of `source_text`. A file
    /// with no host path gives no jump.
    pub fn classify_jump(&self, jump: Option<JumpTarget>, source_text: &str) -> (r:
        DocumentClickResponse)
        requires
            self.wf(),
            utf8_len(source_text@) <= usize::MAX,
        ensures
            match jump {
                None => r is NoJump,
                Some(JumpTarget::File(id, byte)) => if self.path_of().contains_key(id@) {
                    r matches DocumentClickResponse::FileJump(f) && f.file@ == self.path_of()[id@]
                        && f.position == chars_starting_before(source_text@, byte as int)
                } else {
                    r is NoJump
                },
                Some(JumpTarget::Position(page, point)) => r matches DocumentClickResponse::PositionJump(
                    p,
                ) && p.page == page && p.point == point,
                Some(JumpTarget::Url(url)) => r matches DocumentClickResponse::UrlJump(u) && u.url@
                    == url@,
            },
    {
        match jump {
            None => DocumentClickResponse::NoJump,
            Some(JumpTarget::File(id, byte)) => match self.get_file_path(&id) {
                Some(file) => DocumentClickResponse::FileJump(
                    FileJump { file, position: byte_position_to_char_position(source_text, byte) },
                ),
                None => DocumentClickResponse::NoJump,
            },
            Some(JumpTarget::Position(page, point)) => DocumentClickResponse::PositionJump(
                PositionJump { page, point },
            ),
            Some(JumpTarget::Url(url)) => DocumentClickResponse::UrlJump(UrlJump { url }),
        }
    }
}

} // verus!
