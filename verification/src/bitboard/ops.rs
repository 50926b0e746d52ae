//! The bitwise operators on sets of squares.
//!
//! `&`, `|` and `^` take a set on the left and a set or a single square on
//! the right, each by value or by reference; `!` takes a set. A square on the
//! right stands for the set that holds only that square. The assigning forms
//! `&=`, `|=` and `^=` change the set on the left in place.

use vstd::prelude::*;
use vstd::std_specs::ops::BitAndSpecImpl;
use vstd::std_specs::ops::BitOrSpecImpl;
use vstd::std_specs::ops::BitXorSpecImpl;
use vstd::std_specs::ops::NotSpecImpl;
use crate::bitboard::BitBoard;
use crate::square::Square;

verus! {

impl core::ops::BitAnd<BitBoard> for BitBoard {
    type Output = BitBoard;

    /// The squares that are in both operands.
    fn bitand(self, other: BitBoard) -> (r: BitBoard) {
        BitBoard(self.0 & other.0)
    }
}

impl BitAndSpecImpl<BitBoard> for BitBoard {
    open spec fn obeys_bitand_spec() -> bool {
        true
    }

    open spec fn bitand_req(self, other: BitBoard) -> bool {
        true
    }

    open spec fn bitand_spec(self, other: BitBoard) -> BitBoard {
        self.intersection(other)
    }
}

impl core::ops::BitAnd<&BitBoard> for BitBoard {
    type Output = BitBoard;

    /// The squares that are in both operands.
    fn bitand(self, other: &BitBoard) -> (r: BitBoard) {
        BitBoard(self.0 & other.0)
    }
}

impl BitAndSpecImpl<&BitBoard> for BitBoard {
    open spec fn obeys_bitand_spec() -> bool {
        true
    }

    open spec fn bitand_req(self, other: &BitBoard) -> bool {
        true
    }

    open spec fn bitand_spec(self, other: &BitBoard) -> BitBoard {
        self.intersection(*other)
    }
}

impl core::ops::BitAnd<Square> for BitBoard {
    type Output = BitBoard;

    /// The squares that are in both operands.
    fn bitand(self, other: Square) -> (r: BitBoard) {
        BitBoard(self.0 & other.bit())
    }
}

impl BitAndSpecImpl<Square> for BitBoard {
    open spec fn obeys_bitand_spec() -> bool {
        true
    }

    open spec fn bitand_req(self, other: Square) -> bool {
        true
    }

    open spec fn bitand_spec(self, other: Square) -> BitBoard {
        self.intersection(BitBoard::single(other))
    }
}

impl core::ops::BitAnd<&Square> for BitBoard {
    type Output = BitBoard;

    /// The squares that are in both operands.
    fn bitand(self, other: &Square) -> (r: BitBoard) {
        BitBoard(self.0 & other.bit())
    }
}

impl BitAndSpecImpl<&Square> for BitBoard {
    open spec fn obeys_bitand_spec() -> bool {
        true
    }

    open spec fn bitand_req(self, other: &Square) -> bool {
        true
    }

    open spec fn bitand_spec(self, other: &Square) -> BitBoard {
        self.intersection(BitBoard::single(*other))
    }
}

impl core::ops::BitAnd<BitBoard> for &BitBoard {
    type Output = BitBoard;

    /// The squares that are in both operands.
    fn bitand(self, other: BitBoard) -> (r: BitBoard) {
        BitBoard(self.0 & other.0)
    }
}

impl BitAndSpecImpl<BitBoard> for &BitBoard {
    open spec fn obeys_bitand_spec() -> bool {
        true
    }

    open spec fn bitand_req(self, other: BitBoard) -> bool {
        true
    }

    open spec fn bitand_spec(self, other: BitBoard) -> BitBoard {
        self.intersection(other)
    }
}

impl core::ops::BitAnd<&BitBoard> for &BitBoard {
    type Output = BitBoard;

    /// The squares that are in both operands.
    fn bitand(self, other: &BitBoard) -> (r: BitBoard) {
        BitBoard(self.0 & other.0)
    }
}

impl BitAndSpecImpl<&BitBoard> for &BitBoard {
    open spec fn obeys_bitand_spec() -> bool {
        true
    }

    open spec fn bitand_req(self, other: &BitBoard) -> bool {
        true
    }

    open spec fn bitand_spec(self, other: &BitBoard) -> BitBoard {
        self.intersection(*other)
    }
}

impl core::ops::BitAnd<Square> for &BitBoard {
    type Output = BitBoard;

    /// The squares that are in both operands.
    fn bitand(self, other: Square) -> (r: BitBoard) {
        BitBoard(self.0 & other.bit())
    }
}

impl BitAndSpecImpl<Square> for &BitBoard {
    open spec fn obeys_bitand_spec() -> bool {
        true
    }

    open spec fn bitand_req(self, other: Square) -> bool {
        true
    }

    open spec fn bitand_spec(self, other: Square) -> BitBoard {
        self.intersection(BitBoard::single(other))
    }
}

impl core::ops::BitAnd<&Square> for &BitBoard {
    type Output = BitBoard;

    /// The squares that are in both operands.
    fn bitand(self, other: &Square) -> (r: BitBoard) {
        BitBoard(self.0 & other.bit())
    }
}

impl BitAndSpecImpl<&Square> for &BitBoard {
    open spec fn obeys_bitand_spec() -> bool {
        true
    }

    open spec fn bitand_req(self, other: &Square) -> bool {
        true
    }

    open spec fn bitand_spec(self, other: &Square) -> BitBoard {
        self.intersection(BitBoard::single(*other))
    }
}

impl core::ops::BitOr<BitBoard> for BitBoard {
    type Output = BitBoard;

    /// The squares that are in either operand.
    fn bitor(self, other: BitBoard) -> (r: BitBoard) {
        BitBoard(self.0 | other.0)
    }
}

impl BitOrSpecImpl<BitBoard> for BitBoard {
    open spec fn obeys_bitor_spec() -> bool {
        true
    }

    open spec fn bitor_req(self, other: BitBoard) -> bool {
        true
    }

    open spec fn bitor_spec(self, other: BitBoard) -> BitBoard {
        self.union(other)
    }
}

impl core::ops::BitOr<&BitBoard> for BitBoard {
    type Output = BitBoard;

    /// The squares that are in either operand.
    fn bitor(self, other: &BitBoard) -> (r: BitBoard) {
        BitBoard(self.0 | other.0)
    }
}

impl BitOrSpecImpl<&BitBoard> for BitBoard {
    open spec fn obeys_bitor_spec() -> bool {
        true
    }

    open spec fn bitor_req(self, other: &BitBoard) -> bool {
        true
    }

    open spec fn bitor_spec(self, other: &BitBoard) -> BitBoard {
        self.union(*other)
    }
}

impl core::ops::BitOr<Square> for BitBoard {
    type Output = BitBoard;

    /// The squares that are in either operand.
    fn bitor(self, other: Square) -> (r: BitBoard) {
        BitBoard(self.0 | other.bit())
    }
}

impl BitOrSpecImpl<Square> for BitBoard {
    open spec fn obeys_bitor_spec() -> bool {
        true
    }

    open spec fn bitor_req(self, other: Square) -> bool {
        true
    }

    open spec fn bitor_spec(self, other: Square) -> BitBoard {
        self.union(BitBoard::single(other))
    }
}

impl core::ops::BitOr<&Square> for BitBoard {
    type Output = BitBoard;

    /// The squares that are in either operand.
    fn bitor(self, other: &Square) -> (r: BitBoard) {
        BitBoard(self.0 | other.bit())
    }
}

impl BitOrSpecImpl<&Square> for BitBoard {
    open spec fn obeys_bitor_spec() -> bool {
        true
    }

    open spec fn bitor_req(self, other: &Square) -> bool {
        true
    }

    open spec fn bitor_spec(self, other: &Square) -> BitBoard {
        self.union(BitBoard::single(*other))
    }
}

impl core::ops::BitOr<BitBoard> for &BitBoard {
    type Output = BitBoard;

    /// The squares that are in either operand.
    fn bitor(self, other: BitBoard) -> (r: BitBoard) {
        BitBoard(self.0 | other.0)
    }
}

impl BitOrSpecImpl<BitBoard> for &BitBoard {
    open spec fn obeys_bitor_spec() -> bool {
        true
    }

    open spec fn bitor_req(self, other: BitBoard) -> bool {
        true
    }

    open spec fn bitor_spec(self, other: BitBoard) -> BitBoard {
        self.union(other)
    }
}

impl core::ops::BitOr<&BitBoard> for &BitBoard {
    type Output = BitBoard;

    /// The squares that are in either operand.
    fn bitor(self, other: &BitBoard) -> (r: BitBoard) {
        BitBoard(self.0 | other.0)
    }
}

impl BitOrSpecImpl<&BitBoard> for &BitBoard {
    open spec fn obeys_bitor_spec() -> bool {
        true
    }

    open spec fn bitor_req(self, other: &BitBoard) -> bool {
        true
    }

    open spec fn bitor_spec(self, other: &BitBoard) -> BitBoard {
        self.union(*other)
    }
}

impl core::ops::BitOr<Square> for &BitBoard {
    type Output = BitBoard;

    /// The squares that are in either operand.
    fn bitor(self, other: Square) -> (r: BitBoard) {
        BitBoard(self.0 | other.bit())
    }
}

impl BitOrSpecImpl<Square> for &BitBoard {
    open spec fn obeys_bitor_spec() -> bool {
        true
    }

    open spec fn bitor_req(self, other: Square) -> bool {
        true
    }

    open spec fn bitor_spec(self, other: Square) -> BitBoard {
        self.union(BitBoard::single(other))
    }
}

impl core::ops::BitOr<&Square> for &BitBoard {
    type Output = BitBoard;

    /// The squares that are in either operand.
    fn bitor(self, other: &Square) -> (r: BitBoard) {
        BitBoard(self.0 | other.bit())
    }
}

impl BitOrSpecImpl<&Square> for &BitBoard {
    open spec fn obeys_bitor_spec() -> bool {
        true
    }

    open spec fn bitor_req(self, other: &Square) -> bool {
        true
    }

    open spec fn bitor_spec(self, other: &Square) -> BitBoard {
        self.union(BitBoard::single(*other))
    }
}

impl core::ops::BitXor<BitBoard> for BitBoard {
    type Output = BitBoard;

    /// The squares that are in exactly one operand.
    fn bitxor(self, other: BitBoard) -> (r: BitBoard) {
        BitBoard(self.0 ^ other.0)
    }
}

impl BitXorSpecImpl<BitBoard> for BitBoard {
    open spec fn obeys_bitxor_spec() -> bool {
        true
    }

    open spec fn bitxor_req(self, other: BitBoard) -> bool {
        true
    }

    open spec fn bitxor_spec(self, other: BitBoard) -> BitBoard {
        self.symmetric_difference(other)
    }
}

impl core::ops::BitXor<&BitBoard> for BitBoard {
    type Output = BitBoard;

    /// The squares that are in exactly one operand.
    fn bitxor(self, other: &BitBoard) -> (r: BitBoard) {
        BitBoard(self.0 ^ other.0)
    }
}

impl BitXorSpecImpl<&BitBoard> for BitBoard {
    open spec fn obeys_bitxor_spec() -> bool {
        true
    }

    open spec fn bitxor_req(self, other: &BitBoard) -> bool {
        true
    }

    open spec fn bitxor_spec(self, other: &BitBoard) -> BitBoard {
        self.symmetric_difference(*other)
    }
}

impl core::ops::BitXor<Square> for BitBoard {
    type Output = BitBoard;

    /// The squares that are in exactly one operand.
    fn bitxor(self, other: Square) -> (r: BitBoard) {
        BitBoard(self.0 ^ other.bit())
    }
}

impl BitXorSpecImpl<Square> for BitBoard {
    open spec fn obeys_bitxor_spec() -> bool {
        true
    }

    open spec fn bitxor_req(self, other: Square) -> bool {
        true
    }

    open spec fn bitxor_spec(self, other: Square) -> BitBoard {
        self.symmetric_difference(BitBoard::single(other))
    }
}

impl core::ops::BitXor<&Square> for BitBoard {
    type Output = BitBoard;

    /// The squares that are in exactly one operand.
    fn bitxor(self, other: &Square) -> (r: BitBoard) {
        BitBoard(self.0 ^ other.bit())
    }
}

impl BitXorSpecImpl<&Square> for BitBoard {
    open spec fn obeys_bitxor_spec() -> bool {
        true
    }

    open spec fn bitxor_req(self, other: &Square) -> bool {
        true
    }

    open spec fn bitxor_spec(self, other: &Square) -> BitBoard {
        self.symmetric_difference(BitBoard::single(*other))
    }
}

impl core::ops::BitXor<BitBoard> for &BitBoard {
    type Output = BitBoard;

    /// The squares that are in exactly one operand.
    fn bitxor(self, other: BitBoard) -> (r: BitBoard) {
        BitBoard(self.0 ^ other.0)
    }
}

impl BitXorSpecImpl<BitBoard> for &BitBoard {
    open spec fn obeys_bitxor_spec() -> bool {
        true
    }

    open spec fn bitxor_req(self, other: BitBoard) -> bool {
        true
    }

    open spec fn bitxor_spec(self, other: BitBoard) -> BitBoard {
        self.symmetric_difference(other)
    }
}

impl core::ops::BitXor<&BitBoard> for &BitBoard {
    type Output = BitBoard;

    /// The squares that are in exactly one operand.
    fn bitxor(self, other: &BitBoard) -> (r: BitBoard) {
        BitBoard(self.0 ^ other.0)
    }
}

impl BitXorSpecImpl<&BitBoard> for &BitBoard {
    open spec fn obeys_bitxor_spec() -> bool {
        true
    }

    open spec fn bitxor_req(self, other: &BitBoard) -> bool {
        true
    }

    open spec fn bitxor_spec(self, other: &BitBoard) -> BitBoard {
        self.symmetric_difference(*other)
    }
}

impl core::ops::BitXor<Square> for &BitBoard {
    type Output = BitBoard;

    /// The squares that are in exactly one operand.
    fn bitxor(self, other: Square) -> (r: BitBoard) {
        BitBoard(self.0 ^ other.bit())
    }
}

impl BitXorSpecImpl<Square> for &BitBoard {
    open spec fn obeys_bitxor_spec() -> bool {
        true
    }

    open spec fn bitxor_req(self, other: Square) -> bool {
        true
    }

    open spec fn bitxor_spec(self, other: Square) -> BitBoard {
        self.symmetric_difference(BitBoard::single(other))
    }
}

impl core::ops::BitXor<&Square> for &BitBoard {
    type Output = BitBoard;

    /// The squares that are in exactly one operand.
    fn bitxor(self, other: &Square) -> (r: BitBoard) {
        BitBoard(self.0 ^ other.bit())
    }
}

impl BitXorSpecImpl<&Square> for &BitBoard {
    open spec fn obeys_bitxor_spec() -> bool {
        true
    }

    open spec fn bitxor_req(self, other: &Square) -> bool {
        true
    }

    open spec fn bitxor_spec(self, other: &Square) -> BitBoard {
        self.symmetric_difference(BitBoard::single(*other))
    }
}

impl core::ops::Not for BitBoard {
    type Output = BitBoard;

    /// The squares that are not in the operand.
    fn not(self) -> (r: BitBoard) {
        BitBoard(!self.0)
    }
}

impl NotSpecImpl for BitBoard {
    open spec fn obeys_not_spec() -> bool {
        true
    }

    open spec fn not_req(self) -> bool {
        true
    }

    open spec fn not_spec(self) -> BitBoard {
        self.complement()
    }
}

impl core::ops::Not for &BitBoard {
    type Output = BitBoard;

    /// The squares that are not in the operand.
    fn not(self) -> (r: BitBoard) {
        BitBoard(!self.0)
    }
}

impl NotSpecImpl for &BitBoard {
    open spec fn obeys_not_spec() -> bool {
        true
    }

    open spec fn not_req(self) -> bool {
        true
    }

    open spec fn not_spec(self) -> BitBoard {
        self.complement()
    }
}

impl core::ops::BitAndAssign<BitBoard> for BitBoard {
    /// Keeps the squares that are in both operands.
    fn bitand_assign(&mut self, other: BitBoard)
        ensures
            *final(self) == old(self).intersection(other),
    {
        self.0 = self.0 & other.0;
    }
}

impl core::ops::BitAndAssign<&BitBoard> for BitBoard {
    /// Keeps the squares that are in both operands.
    fn bitand_assign(&mut self, other: &BitBoard)
        ensures
            *final(self) == old(self).intersection(*other),
    {
        self.0 = self.0 & other.0;
    }
}

impl core::ops::BitAndAssign<Square> for BitBoard {
    /// Keeps the squares that are in both operands.
    fn bitand_assign(&mut self, other: Square)
        ensures
            *final(self) == old(self).intersection(BitBoard::single(other)),
    {
        self.0 = self.0 & other.bit();
    }
}

impl core::ops::BitAndAssign<&Square> for BitBoard {
    /// Keeps the squares that are in both operands.
    fn bitand_assign(&mut self, other: &Square)
        ensures
            *final(self) == old(self).intersection(BitBoard::single(*other)),
    {
        self.0 = self.0 & other.bit();
    }
}

impl core::ops::BitOrAssign<BitBoard> for BitBoard {
    /// Adds the squares of the right operand.
    fn bitor_assign(&mut self, other: BitBoard)
        ensures
            *final(self) == old(self).union(other),
    {
        self.0 = self.0 | other.0;
    }
}

impl core::ops::BitOrAssign<&BitBoard> for BitBoard {
    /// Adds the squares of the right operand.
    fn bitor_assign(&mut self, other: &BitBoard)
        ensures
            *final(self) == old(self).union(*other),
    {
        self.0 = self.0 | other.0;
    }
}

impl core::ops::BitOrAssign<Square> for BitBoard {
    /// Adds the squares of the right operand.
    fn bitor_assign(&mut self, other: Square)
        ensures
            *final(self) == old(self).union(BitBoard::single(other)),
    {
        self.0 = self.0 | other.bit();
    }
}

impl core::ops::BitOrAssign<&Square> for BitBoard {
    /// Adds the squares of the right operand.
    fn bitor_assign(&mut self, other: &Square)
        ensures
            *final(self) == old(self).union(BitBoard::single(*other)),
    {
        self.0 = self.0 | other.bit();
    }
}

impl core::ops::BitXorAssign<BitBoard> for BitBoard {
    /// Keeps the squares that are in exactly one operand.
    fn bitxor_assign(&mut self, other: BitBoard)
        ensures
            *final(self) == old(self).symmetric_difference(other),
    {
        self.0 = self.0 ^ other.0;
    }
}

impl core::ops::BitXorAssign<&BitBoard> for BitBoard {
    /// Keeps the squares that are in exactly one operand.
    fn bitxor_assign(&mut self, other: &BitBoard)
        ensures
            *final(self) == old(self).symmetric_difference(*other),
    {
        self.0 = self.0 ^ other.0;
    }
}

impl core::ops::BitXorAssign<Square> for BitBoard {
    /// Keeps the squares that are in exactly one operand.
    fn bitxor_assign(&mut self, other: Square)
        ensures
            *final(self) == old(self).symmetric_difference(BitBoard::single(other)),
    {
        self.0 = self.0 ^ other.bit();
    }
}

impl core::ops::BitXorAssign<&Square> for BitBoard {
    /// Keeps the squares that are in exactly one operand.
    fn bitxor_assign(&mut self, other: &Square)
        ensures
            *final(self) == old(self).symmetric_difference(BitBoard::single(*other)),
    {
        self.0 = self.0 ^ other.bit();
    }
}

} // verus!
