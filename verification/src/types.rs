//! Small shared vocabulary: input modes and pixel dimensions.

use vstd::prelude::*;
use vstd::string::StringExecFns;
use crate::spectral::{decimal, decimal_chars};
use crate::text::piece_to_string;

verus! {

/// Which input source drives the beam.
#[derive(Clone, Copy, Debug, PartialEq, Eq, Structural)]
pub enum InputMode {
    Oscilloscope,
    Audio,
    Vector,
    External,
}

impl Default for InputMode {
    fn default() -> (r: Self)
        ensures
            r == InputMode::Oscilloscope,
    {
        InputMode::Oscilloscope
    }
}

/// Where the external protocol is read from.
#[derive(Clone, Copy, Debug, PartialEq, Eq, Structural)]
pub enum ExternalMode {
    Stdin,
    Socket,
}

impl Default for ExternalMode {
    fn default() -> (r: Self)
        ensures
            r == ExternalMode::Stdin,
    {
        ExternalMode::Stdin
    }
}

/// Connection state of the external protocol source.
pub struct ExternalState {
    pub mode: ExternalMode,
    pub socket_path: String,
    pub connected: bool,
}

impl Default for ExternalState {
    fn default() -> (r: Self)
        ensures
            r.mode == ExternalMode::Stdin,
            r.socket_path@ == Seq::<char>::empty(),
            !r.connected,
    {
        ExternalState { mode: ExternalMode::Stdin, socket_path: String::new(), connected: false }
    }
}

/// Which side panel is shown.
#[derive(Clone, Copy, Debug, PartialEq, Eq, Structural)]
pub enum PanelTab {
    Scope,
    Engineer,
}

impl Default for PanelTab {
    fn default() -> (r: Self)
        ensures
            r == PanelTab::Scope,
    {
        PanelTab::Scope
    }
}

/// Width x height pixel dimensions.
#[derive(Clone, Copy, Debug, PartialEq, Eq, Structural)]
pub struct Resolution {
    pub width: u32,
    pub height: u32,
}

impl Resolution {
    pub fn new(width: u32, height: u32) -> (r: Self)
        ensures
            r.width == width,
            r.height == height,
    {
        Resolution { width, height }
    }

    /// The dimensions as text: width, a multiplication sign, height.
    pub open spec fn label_spec(&self) -> Seq<char> {
        decimal(self.width as nat) + seq!['\u{d7}'] + decimal(self.height as nat)
    }

    /// The dimensions as text, such as `800\u{d7}600`.
    pub fn label(&self) -> (s: String)
        ensures
            s@ == self.label_spec(),
    {
        let mut chars = decimal_chars(self.width as usize);
        chars.push('\u{d7}');
        let mut height = decimal_chars(self.height as usize);
        chars.append(&mut height);
        let s = piece_to_string(chars.as_slice(), 0, chars.len());
        assert(s@ =~= self.label_spec());
        s
    }

    /// Number of pixels.
    pub open spec fn pixels_spec(&self) -> int {
        self.width * self.height
    }

    /// Number of pixels. Two 32-bit factors always fit 64 bits.
    pub fn pixels(&self) -> (n: u64)
        ensures
            n == self.pixels_spec(),
    {
        assert(self.width * self.height <= 0xffff_ffff * 0xffff_ffff) by (nonlinear_arith)
            requires
                self.width <= 0xffff_ffff,
                self.height <= 0xffff_ffff,
        ;
        (self.width as u64) * (self.height as u64)
    }
}

} // verus!
