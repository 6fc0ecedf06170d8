use vstd::prelude::*;

use crate::err::TydleError;

verus! {

/// Whether `c` may appear in a video id: ASCII letters, digits, `-` and `_`.
pub open spec fn spec_is_id_char(c: char) -> bool {
    ||| ('A' as u32) <= (c as u32) <= ('Z' as u32)
    ||| ('a' as u32) <= (c as u32) <= ('z' as u32)
    ||| ('0' as u32) <= (c as u32) <= ('9' as u32)
    ||| c == '-'
    ||| c == '_'
}

/// Whether `s` is a well-formed video id: exactly 11 characters, each from
/// the id alphabet.
pub open spec fn spec_valid_video_id(s: Seq<char>) -> bool {
    &&& s.len() == 11
    &&& forall|i: int| 0 <= i < s.len() ==> spec_is_id_char(#[trigger] s[i])
}

pub fn is_id_char(c: char) -> (r: bool)
    ensures
        r == spec_is_id_char(c),
{
    let u = c as u32;
    (65 <= u && u <= 90) || (97 <= u && u <= 122) || (48 <= u && u <= 57) || c == '-' || c == '_'
}

/// A validated 11-character video identifier.
#[derive(Debug, Clone, PartialEq, Eq, Hash)]
pub struct VideoId {
    id: String,
}

impl View for VideoId {
    type V = Seq<char>;

    closed spec fn view(&self) -> Seq<char> {
        self.id@
    }
}

impl VideoId {
    /// Validates `s` and wraps it. Succeeds exactly on well-formed ids.
    pub fn new(s: &str) -> (r: Result<VideoId, TydleError>)
        ensures
            r is Ok <==> spec_valid_video_id(s@),
            r matches Ok(v) ==> v@ == s@,
            r matches Err(e) ==> e == TydleError::InvalidInput,
    {
        let n = s.unicode_len();
        if n != 11 {
            return Err(TydleError::InvalidInput);
        }
        let mut i: usize = 0;
        while i < 11
            invariant
                0 <= i <= 11,
                s@.len() == 11,
                forall|j: int| 0 <= j < i ==> spec_is_id_char(#[trigger] s@[j]),
            decreases 11 - i,
        {
            if !is_id_char(s.get_char(i)) {
                return Err(TydleError::InvalidInput);
            }
            i = i + 1;
        }
        Ok(VideoId { id: String::from_str(s) })
    }

    /// The underlying text of the id.
    pub fn as_str(&self) -> (r: &str)
        ensures
            r@ == self@,
    {
        self.id.as_str()
    }
}

} // verus!
