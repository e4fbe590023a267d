//! The command line of the inspector, as plain values.
use vstd::prelude::*;
use vstd::string::StringSliceAdditionalSpecFns;

verus! {

/// What the inspector is asked to do: which file to read, and whether to
/// show the chunks in an interactive terminal view.
#[derive(Debug, Clone)]
pub struct Args {
    pub file: String,
    pub tui: bool,
}

/// Whether the bytes of the file name end in "wav".
pub open spec fn ends_in_wav(b: Seq<u8>) -> bool {
    b.len() >= 3 && b.subrange(b.len() - 3, b.len() as int) == seq![0x77u8, 0x61u8, 0x76u8]
}

/// Whether the file name ends in "wav", which a WAV file's name should.
pub fn has_wav_extension(file: &str) -> (r: bool)
    ensures
        r == ends_in_wav(file.spec_bytes()),
{
    let b = file.as_bytes();
    let n = b.len();
    if n < 3 {
        return false;
    }
    let r = b[n - 3] == 0x77 && b[n - 2] == 0x61 && b[n - 1] == 0x76;
    assert(r == (b@.subrange(n - 3, n as int) =~= seq![0x77u8, 0x61u8, 0x76u8]));
    r
}

} // verus!
