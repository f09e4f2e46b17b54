//! Named layouts: the reference layout and several common alternatives.

use vstd::prelude::*;
use crate::layout::Layout;

verus! {

/// The reference layout that a search starts from.
pub fn init_layout() -> (r: Layout)
    ensures
        r.lower() == seq![
            'q', 'u', 'p', 'g', '/', 'z', 'l', 'w', 'y', '-', '=',
            'a', 'r', 'n', 's', 'd', 'f', 'h', 't', 'i', 'o', '\'',
            'j', 'k', 'v', 'c', ';', 'x', 'm', 'b', ',', '.',
            'e',
        ],
        r.upper() == seq![
            'Q', 'U', 'P', 'G', '?', 'Z', 'L', 'W', 'Y', '_', '+',
            'A', 'R', 'N', 'S', 'D', 'F', 'H', 'T', 'I', 'O', '"',
            'J', 'K', 'V', 'C', ':', 'X', 'M', 'B', '<', '>',
            'E',
        ],
{
    Layout::from_keys(
        [
            'q', 'u', 'p', 'g', '/', 'z', 'l', 'w', 'y', '-', '=',
            'a', 'r', 'n', 's', 'd', 'f', 'h', 't', 'i', 'o', '\'',
            'j', 'k', 'v', 'c', ';', 'x', 'm', 'b', ',', '.',
            'e',
        ],
        [
            'Q', 'U', 'P', 'G', '?', 'Z', 'L', 'W', 'Y', '_', '+',
            'A', 'R', 'N', 'S', 'D', 'F', 'H', 'T', 'I', 'O', '"',
            'J', 'K', 'V', 'C', ':', 'X', 'M', 'B', '<', '>',
            'E',
        ],
    )
}

/// The QWERTY layout.
pub fn qwerty_layout() -> (r: Layout)
    ensures
        r.lower() == seq![
            'q', 'w', 'e', 'r', 't', 'y', 'u', 'i', 'o', 'p', '-',
            'a', 's', 'd', 'f', 'g', 'h', 'j', 'k', 'l', ';', '\'',
            'z', 'x', 'c', 'v', 'b', 'n', 'm', ',', '.', '/',
            '\0',
        ],
        r.upper() == seq![
            'Q', 'W', 'E', 'R', 'T', 'Y', 'U', 'I', 'O', 'P', '_',
            'A', 'S', 'D', 'F', 'G', 'H', 'J', 'K', 'L', ':', '"',
            'Z', 'X', 'C', 'V', 'B', 'N', 'M', '<', '>', '?',
            '\0',
        ],
{
    Layout::from_keys(
        [
            'q', 'w', 'e', 'r', 't', 'y', 'u', 'i', 'o', 'p', '-',
            'a', 's', 'd', 'f', 'g', 'h', 'j', 'k', 'l', ';', '\'',
            'z', 'x', 'c', 'v', 'b', 'n', 'm', ',', '.', '/',
            '\0',
        ],
        [
            'Q', 'W', 'E', 'R', 'T', 'Y', 'U', 'I', 'O', 'P', '_',
            'A', 'S', 'D', 'F', 'G', 'H', 'J', 'K', 'L', ':', '"',
            'Z', 'X', 'C', 'V', 'B', 'N', 'M', '<', '>', '?',
            '\0',
        ],
    )
}

/// The Dvorak layout.
pub fn dvorak_layout() -> (r: Layout)
    ensures
        r.lower() == seq![
            '\'', ',', '.', 'p', 'y', 'f', 'g', 'c', 'r', 'l', '/',
            'a', 'o', 'e', 'u', 'i', 'd', 'h', 't', 'n', 's', '-',
            ';', 'q', 'j', 'k', 'x', 'b', 'm', 'w', 'v', 'z',
            '\0',
        ],
        r.upper() == seq![
            '"', ',', '.', 'P', 'Y', 'F', 'G', 'C', 'R', 'L', '?',
            'A', 'O', 'E', 'U', 'I', 'D', 'H', 'T', 'N', 'S', '_',
            ':', 'Q', 'J', 'K', 'X', 'B', 'M', 'W', 'V', 'Z',
            '\0',
        ],
{
    Layout::from_keys(
        [
            '\'', ',', '.', 'p', 'y', 'f', 'g', 'c', 'r', 'l', '/',
            'a', 'o', 'e', 'u', 'i', 'd', 'h', 't', 'n', 's', '-',
            ';', 'q', 'j', 'k', 'x', 'b', 'm', 'w', 'v', 'z',
            '\0',
        ],
        [
            '"', ',', '.', 'P', 'Y', 'F', 'G', 'C', 'R', 'L', '?',
            'A', 'O', 'E', 'U', 'I', 'D', 'H', 'T', 'N', 'S', '_',
            ':', 'Q', 'J', 'K', 'X', 'B', 'M', 'W', 'V', 'Z',
            '\0',
        ],
    )
}

/// The Colemak layout.
pub fn colemak_layout() -> (r: Layout)
    ensures
        r.lower() == seq![
            'q', 'w', 'f', 'p', 'g', 'j', 'l', 'u', 'y', ';', '-',
            'a', 'r', 's', 't', 'd', 'h', 'n', 'e', 'i', 'o', '\'',
            'z', 'x', 'c', 'v', 'b', 'k', 'm', ',', '.', '/',
            '\0',
        ],
        r.upper() == seq![
            'Q', 'W', 'F', 'P', 'G', 'J', 'L', 'U', 'Y', ':', '_',
            'A', 'R', 'S', 'T', 'D', 'H', 'N', 'E', 'I', 'O', '"',
            'Z', 'X', 'C', 'V', 'B', 'K', 'M', '<', '>', 'Z',
            '\0',
        ],
{
    Layout::from_keys(
        [
            'q', 'w', 'f', 'p', 'g', 'j', 'l', 'u', 'y', ';', '-',
            'a', 'r', 's', 't', 'd', 'h', 'n', 'e', 'i', 'o', '\'',
            'z', 'x', 'c', 'v', 'b', 'k', 'm', ',', '.', '/',
            '\0',
        ],
        [
            'Q', 'W', 'F', 'P', 'G', 'J', 'L', 'U', 'Y', ':', '_',
            'A', 'R', 'S', 'T', 'D', 'H', 'N', 'E', 'I', 'O', '"',
            'Z', 'X', 'C', 'V', 'B', 'K', 'M', '<', '>', 'Z',
            '\0',
        ],
    )
}

/// The QGMLWY layout.
pub fn qgmlwy_layout() -> (r: Layout)
    ensures
        r.lower() == seq![
            'q', 'g', 'm', 'l', 'w', 'y', 'f', 'u', 'b', ';', '-',
            'd', 's', 't', 'n', 'r', 'i', 'a', 'e', 'o', 'h', '\'',
            'z', 'x', 'c', 'v', 'j', 'k', 'p', ',', '.', '/',
            '\0',
        ],
        r.upper() == seq![
            'Q', 'G', 'M', 'L', 'W', 'Y', 'F', 'U', 'B', ';', '-',
            'D', 'S', 'T', 'N', 'R', 'I', 'A', 'E', 'O', 'H', '\'',
            'Z', 'X', 'C', 'V', 'J', 'K', 'P', ',', '.', '/',
            '\0',
        ],
{
    Layout::from_keys(
        [
            'q', 'g', 'm', 'l', 'w', 'y', 'f', 'u', 'b', ';', '-',
            'd', 's', 't', 'n', 'r', 'i', 'a', 'e', 'o', 'h', '\'',
            'z', 'x', 'c', 'v', 'j', 'k', 'p', ',', '.', '/',
            '\0',
        ],
        [
            'Q', 'G', 'M', 'L', 'W', 'Y', 'F', 'U', 'B', ';', '-',
            'D', 'S', 'T', 'N', 'R', 'I', 'A', 'E', 'O', 'H', '\'',
            'Z', 'X', 'C', 'V', 'J', 'K', 'P', ',', '.', '/',
            '\0',
        ],
    )
}

/// The Workman layout.
pub fn workman_layout() -> (r: Layout)
    ensures
        r.lower() == seq![
            'q', 'd', 'r', 'w', 'b', 'j', 'f', 'u', 'p', ';', '-',
            'a', 's', 'h', 't', 'g', 'y', 'n', 'e', 'o', 'i', '\'',
            'z', 'x', 'm', 'c', 'v', 'k', 'l', ',', '.', '/',
            '\0',
        ],
        r.upper() == seq![
            'Q', 'D', 'R', 'W', 'B', 'J', 'F', 'U', 'P', ';', '-',
            'A', 'S', 'H', 'T', 'G', 'Y', 'N', 'E', 'O', 'I', '\'',
            'Z', 'X', 'M', 'C', 'V', 'K', 'L', ',', '.', '/',
            '\0',
        ],
{
    Layout::from_keys(
        [
            'q', 'd', 'r', 'w', 'b', 'j', 'f', 'u', 'p', ';', '-',
            'a', 's', 'h', 't', 'g', 'y', 'n', 'e', 'o', 'i', '\'',
            'z', 'x', 'm', 'c', 'v', 'k', 'l', ',', '.', '/',
            '\0',
        ],
        [
            'Q', 'D', 'R', 'W', 'B', 'J', 'F', 'U', 'P', ';', '-',
            'A', 'S', 'H', 'T', 'G', 'Y', 'N', 'E', 'O', 'I', '\'',
            'Z', 'X', 'M', 'C', 'V', 'K', 'L', ',', '.', '/',
            '\0',
        ],
    )
}

} // verus!
