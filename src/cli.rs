//! Settings of the command-line front end.
use vstd::prelude::*;

use crate::decoder::PngDecoderOptions;

verus! {

/// What the command line asked for. Parsing the arguments is the front end's job.
pub struct Cli {
    /// Print debug output.
    pub debug: bool,
    /// Print verbose output.
    pub verbose: bool,
    /// Stop at the first error.
    pub fail_fast: bool,
    /// Check the CRC of each chunk; on unless turned off.
    pub validate_crc: bool,
    input_file: Option<String>,
}

impl Cli {
    /// `(debug, verbose, fail_fast, validate_crc)`.
    pub closed spec fn flags_view(&self) -> (bool, bool, bool, bool) {
        (self.debug, self.verbose, self.fail_fast, self.validate_crc)
    }

    pub closed spec fn input_file_view(&self) -> Option<Seq<char>> {
        match self.input_file {
            Some(s) => Some(s@),
            None => None,
        }
    }

    /// The defaults: quiet, tolerant of recoverable errors, CRCs checked, no input yet.
    pub fn new() -> (r: Self)
        ensures
            r.flags_view() == (false, false, false, true),
            r.input_file_view() is None,
    {
        Cli { debug: false, verbose: false, fail_fast: false, validate_crc: true, input_file: None }
    }

    pub fn set_input_file_path(&mut self, path: String)
        ensures
            final(self).input_file_view() == Some(path@),
            final(self).flags_view() == old(self).flags_view(),
    {
        self.input_file = Some(path);
    }

    /// The path of the PNG file to decode.
    pub fn get_input_file_path(&self) -> (r: &str)
        requires
            self.input_file_view() is Some,
        ensures
            r@ == self.input_file_view()->Some_0,
    {
        self.input_file.as_ref().unwrap().as_str()
    }

    /// The decoder options the settings stand for.
    pub fn decoder_options(&self) -> (r: PngDecoderOptions)
        ensures
            r.fail_fast == self.flags_view().2,
            r.validate_crc == self.flags_view().3,
    {
        PngDecoderOptions::new(self.fail_fast, self.validate_crc)
    }
}

} // verus!
