//! TabICL v2: configuration.

use vstd::prelude::*;

use crate::text;

verus! {

/// The architecture of TabICL v2.
#[derive(Clone, Copy, Debug)]
pub struct TabIclConfig {
    pub max_classes: usize,
    pub embed_dim: usize,
    pub col_num_blocks: usize,
    pub col_nhead: usize,
    pub col_num_inds: usize,
    pub feature_group_size: usize,
    pub row_num_blocks: usize,
    pub row_nhead: usize,
    pub row_num_cls: usize,
    /// Held as the bits of a 64-bit floating-point number.
    pub row_rope_base: u64,
    pub icl_num_blocks: usize,
    pub icl_nhead: usize,
    pub ff_factor: usize,
}

impl TabIclConfig {
    /// The published classifier.
    pub fn v2() -> (r: Self)
        ensures
            r.max_classes == 10,
            r.embed_dim == 128,
            r.col_num_blocks == 3,
            r.col_nhead == 8,
            r.col_num_inds == 128,
            r.feature_group_size == 3,
            r.row_num_blocks == 3,
            r.row_nhead == 8,
            r.row_num_cls == 4,
            r.row_rope_base == 0x40f8_6a00_0000_0000,
            r.icl_num_blocks == 12,
            r.icl_nhead == 8,
            r.ff_factor == 2,
    {
        TabIclConfig {
            max_classes: 10,
            embed_dim: 128,
            col_num_blocks: 3,
            col_nhead: 8,
            col_num_inds: 128,
            feature_group_size: 3,
            row_num_blocks: 3,
            row_nhead: 8,
            row_num_cls: 4,
            row_rope_base: 0x40f8_6a00_0000_0000,
            icl_num_blocks: 12,
            icl_nhead: 8,
            ff_factor: 2,
        }
    }

    /// Width of a row's representation: its class tokens, side by side.
    pub fn icl_dim(&self) -> (r: usize)
        requires
            self.embed_dim * self.row_num_cls <= usize::MAX,
        ensures
            r == self.embed_dim * self.row_num_cls,
    {
        self.embed_dim * self.row_num_cls
    }

    /// Whether the model knows so many classes.
    pub fn knows(&self, n_classes: usize) -> (r: Result<(), TooManyClasses>)
        ensures
            r == (if n_classes <= self.max_classes {
                Ok(())
            } else {
                Err(TooManyClasses { max_classes: self.max_classes })
            }),
    {
        if n_classes <= self.max_classes {
            Ok(())
        } else {
            Err(TooManyClasses { max_classes: self.max_classes })
        }
    }
}

/// More classes than the model knows.
#[derive(Debug, Clone, Copy, PartialEq, Eq, Structural)]
pub struct TooManyClasses {
    pub max_classes: usize,
}

impl TooManyClasses {
    /// The error in words.
    pub fn message(self) -> (r: String)
        ensures
            r@ == "n_classes must be <= "@ + text::decimal(self.max_classes as nat),
    {
        let mut out: String = "n_classes must be <= ".to_string();
        text::push_decimal(&mut out, self.max_classes as u64);
        out
    }
}

} // verus!
