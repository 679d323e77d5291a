//! Joining loaded file text with the typed message.
//!
//! Picking, reading and writing the files themselves is filesystem work
//! that stays with the surrounding application; what belongs here is the
//! one pure rule for combining the two texts.

use vstd::prelude::*;

verus! {

/// File-context helpers around the prompt.
pub struct FileHandler;

impl FileHandler {
    /// Prefixes the typed message with the loaded file's text; the message
    /// alone when no file is loaded.
    pub fn create_prompt_with_file_context(file_content: &str, input_text: &str) -> (r: String)
        ensures
            file_content@.len() == 0 ==> r@ == input_text@,
            file_content@.len() > 0 ==> r@ == file_content@ + "\n\n"@ + input_text@,
    {
        if file_content.unicode_len() == 0 {
            input_text.to_owned()
        } else {
            let mut out = file_content.to_owned();
            out.append("\n\n");
            out.append(input_text);
            out
        }
    }
}

} // verus!
