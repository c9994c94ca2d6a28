//! Text in the form that hwloc can take
use vstd::prelude::*;

verus! {

/// A string contains the NUL char, which C strings cannot hold
#[derive(Clone, Copy, Debug, Hash, PartialEq, Eq, Structural)]
pub struct NulError;

/// Truth that `text` can be handed to a C library
pub open spec fn nul_free(text: Seq<char>) -> bool {
    forall|i: int| 0 <= i < text.len() ==> text[i] != '\0'
}

/// Truth that `text` can be handed to a C library
pub fn is_nul_free(text: &str) -> (free: bool)
    ensures
        free == nul_free(text@),
        free <==> !text@.contains('\0'),
{
    for c in iter: text.chars()
        invariant
            iter.seq() == text@,
            forall|j: int| 0 <= j < iter.index() ==> text@[j] != '\0',
    {
        if c == '\0' {
            assert(text@[iter.index() as int] == '\0');
            return false;
        }
    }
    proof {
        law_nul_free(text@);
    }
    true
}

/// Text without NUL chars, which hwloc can take as a C string
#[derive(Clone, Debug, Hash, PartialEq, Eq)]
pub struct LibcString {
    text: String,
}

impl View for LibcString {
    type V = Seq<char>;

    closed spec fn view(&self) -> Seq<char> {
        self.text@
    }
}

impl LibcString {
    /// Text of a C string, if `text` has no NUL char
    pub fn new(text: &str) -> (result: Result<LibcString, NulError>)
        ensures
            nul_free(text@) ==> (result matches Ok(s) && s@ == text@),
            !nul_free(text@) ==> result == Err::<LibcString, NulError>(NulError),
            result is Ok <==> !text@.contains('\0'),
    {
        proof {
            law_nul_free(text@);
        }
        if is_nul_free(text) {
            Ok(LibcString { text: text.to_owned() })
        } else {
            Err(NulError)
        }
    }

    /// Number of bytes of the C string, including the terminating NUL
    pub open spec fn size(self) -> nat {
        vstd::utf8::encode_utf8(self@).len() + 1
    }

    /// Text without the terminating NUL
    pub fn as_str(&self) -> (text: &str)
        ensures
            text@ == self@,
    {
        self.text.as_str()
    }

    /// Number of bytes of the C string, including the terminating NUL
    pub fn len(&self) -> (length: usize)
        requires
            self.size() <= usize::MAX,
        ensures
            length == self.size(),
    {
        self.text.as_str().len() + 1
    }
}

/// Text can be handed to a C library exactly if none of its chars is NUL
pub proof fn law_nul_free(text: Seq<char>)
    ensures
        nul_free(text) <==> !text.contains('\0'),
{
    if nul_free(text) && text.contains('\0') {
        assert(text[text.index_of('\0')] == '\0');
    }
    if !text.contains('\0') {
        assert forall|i: int| 0 <= i < text.len() implies text[i] != '\0' by {
            assert(text.contains(text[i]));
        }
    }
}

/// Any char but NUL can be added to text, and text can be joined
pub proof fn law_nul_free_text_grows(a: Seq<char>, c: char, b: Seq<char>)
    ensures
        nul_free(Seq::<char>::empty()),
        nul_free(a.push(c)) <==> nul_free(a) && c != '\0',
        nul_free(a + b) <==> nul_free(a) && nul_free(b),
{
    let more = a.push(c);
    let both = a + b;
    if nul_free(more) {
        assert forall|i: int| 0 <= i < a.len() implies a[i] != '\0' by {
            assert(more[i] == a[i]);
        }
        assert(more[a.len() as int] == c);
    }
    if nul_free(both) {
        assert forall|i: int| 0 <= i < a.len() implies a[i] != '\0' by {
            assert(both[i] == a[i]);
        }
        assert forall|i: int| 0 <= i < b.len() implies b[i] != '\0' by {
            assert(both[a.len() + i] == b[i]);
        }
    }
}

} // verus!
