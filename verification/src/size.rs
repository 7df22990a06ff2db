//! The window geometry of a hash instance.

use vstd::prelude::*;

verus! {

/// Whether `window_size` bits per window and `num_windows` windows describe a
/// usable geometry: both positive, and the capacity in bits a multiple of
/// eight that fits a machine word.
pub open spec fn valid_geometry(window_size: nat, num_windows: nat) -> bool {
    &&& window_size > 0
    &&& num_windows > 0
    &&& window_size * num_windows <= usize::MAX
    &&& (window_size * num_windows) % 8 == 0
}

/// The number of bits per window and the number of windows of a hash
/// instance. Every value of this type has a valid geometry.
#[derive(Clone, Copy, Debug, PartialEq, Eq, PartialOrd, Ord, Hash)]
pub struct PedersenSize {
    window_size: usize,
    num_windows: usize,
}

impl PedersenSize {
    /// The number of bits, and of bases, per window.
    pub closed spec fn spec_window_size(&self) -> usize {
        self.window_size
    }

    /// The number of windows.
    pub closed spec fn spec_num_windows(&self) -> usize {
        self.num_windows
    }

    /// The largest input the hash accepts, in bits.
    pub open spec fn spec_input_size_bits(&self) -> nat {
        (self.spec_window_size() * self.spec_num_windows()) as nat
    }

    /// The largest input the hash accepts, in bytes.
    pub open spec fn spec_input_size_bytes(&self) -> nat {
        self.spec_input_size_bits() / 8
    }

    /// The invariant of the type.
    #[verifier::type_invariant]
    pub open spec fn wf(&self) -> bool {
        valid_geometry(self.spec_window_size() as nat, self.spec_num_windows() as nat)
    }

    /// The geometry with the given dimensions, where they are valid.
    pub fn new(window_size: usize, num_windows: usize) -> (r: Option<Self>)
        ensures
            r is Some <==> valid_geometry(window_size as nat, num_windows as nat),
            r matches Some(size) ==> size.spec_window_size() == window_size
                && size.spec_num_windows() == num_windows && size.wf(),
    {
        if window_size == 0 || num_windows == 0 {
            return None;
        }
        match window_size.checked_mul(num_windows) {
            Some(capacity) => {
                if capacity % 8 == 0 {
                    Some(PedersenSize { window_size, num_windows })
                } else {
                    None
                }
            },
            None => None,
        }
    }

    /// The number of bits, and of bases, per window.
    #[verifier::when_used_as_spec(spec_window_size)]
    pub fn window_size(&self) -> (w: usize)
        ensures
            w == self.spec_window_size(),
    {
        self.window_size
    }

    /// The number of windows.
    #[verifier::when_used_as_spec(spec_num_windows)]
    pub fn num_windows(&self) -> (n: usize)
        ensures
            n == self.spec_num_windows(),
    {
        self.num_windows
    }

    /// The largest input the hash accepts, in bits.
    pub fn input_size_bits(&self) -> (bits: usize)
        ensures
            bits == self.spec_input_size_bits(),
    {
        proof {
            use_type_invariant(self);
        }
        self.window_size * self.num_windows
    }
}

} // verus!
