//! Composition: the text grid every render is finally written as (with the untrusted-glyph
//! boundary), and the declarative layer stack: the canvas a composition draws on, where and
//! how each layer is placed and blended, how a layer's coverage is derived, and the errors a
//! render reports.

use vstd::prelude::*;

use crate::text::{decimal, push_char, push_decimal};

verus! {

/// The composite canvas size, in cells.
#[derive(Debug, Clone, Copy, PartialEq, Eq, Structural)]
pub struct CanvasSpec {
    pub cols: u32,
    pub rows: u32,
}

/// Where a layer's top-left cell lands on the canvas (may be negative: clipped).
#[derive(Debug, Clone, Copy, PartialEq, Eq, Structural)]
pub struct Placement {
    pub row: i32,
    pub col: i32,
}

impl Default for Placement {
    fn default() -> (p: Placement)
        ensures
            p.row == 0 && p.col == 0,
    {
        Placement { row: 0, col: 0 }
    }
}

/// How a layer blends onto what is already drawn.
#[derive(Debug, Clone, Copy, PartialEq, Eq, Structural)]
pub enum BlendSpec {
    Over,
    Under,
    Replace,
    Stipple,
}

/// Where a layer's coverage comes from.
#[derive(Debug, Clone, Copy, PartialEq, Eq, Structural)]
pub enum CoverageMode {
    /// Every cell fully covers.
    Opaque,
    /// Cells holding `token` are transparent; every other cell covers.
    KeyedOn { token: u32 },
    /// The resolver supplies a coverage value per cell.
    Explicit,
}

impl Default for CoverageMode {
    fn default() -> (m: CoverageMode)
        ensures
            m == CoverageMode::Opaque,
    {
        CoverageMode::Opaque
    }
}

/// Why a composition could not be rendered.
#[derive(Debug, Clone, PartialEq, Eq)]
pub enum RenderError {
    /// The canvas or a layer could not be composed (the compositor's message).
    Compose(String),
    /// A layer declared explicit coverage but the resolver supplied none.
    MissingExplicitCoverage,
    /// Explicit coverage had the wrong number of cells.
    CoverageSizeMismatch { expected: usize, got: usize },
    /// A layer's source could not be resolved.
    Resolve(String),
}

/// The human-readable text of a render error.
pub open spec fn render_error_text(e: RenderError) -> Seq<char> {
    match e {
        RenderError::Compose(m) => "composition error: "@ + m@,
        RenderError::MissingExplicitCoverage => "layer declared explicit coverage but the resolver supplied none"@,
        RenderError::CoverageSizeMismatch { expected, got } => "explicit coverage has "@ + decimal(got as nat)
            + " cells, expected "@ + decimal(expected as nat),
        RenderError::Resolve(m) => "layer resolve failed: "@ + m@,
    }
}

impl RenderError {
    /// The human-readable text of this error.
    pub fn to_display_string(&self) -> (s: String)
        ensures
            s@ == render_error_text(*self),
    {
        let mut s = String::new();
        match self {
            RenderError::Compose(m) => {
                s.append("composition error: ");
                s.append(m.as_str());
            },
            RenderError::MissingExplicitCoverage => s.append(
                "layer declared explicit coverage but the resolver supplied none",
            ),
            RenderError::CoverageSizeMismatch { expected, got } => {
                s.append("explicit coverage has ");
                push_decimal(&mut s, *got as u64);
                s.append(" cells, expected ");
                push_decimal(&mut s, *expected as u64);
            },
            RenderError::Resolve(m) => {
                s.append("layer resolve failed: ");
                s.append(m.as_str());
            },
        }
        s
    }
}

/// The cell count of a `cols × rows` layer, saturating.
pub open spec fn layer_cells(cols: u32, rows: u32) -> usize {
    if cols * rows > usize::MAX { usize::MAX } else { (cols * rows) as usize }
}

/// Which cells of a layer cover, when coverage is not explicit: all of them for `Opaque`;
/// for `KeyedOn`, those not holding the key token. `None` for `Explicit`.
pub fn derived_coverage(mode: CoverageMode, cols: u32, rows: u32, tokens: &Vec<u32>) -> (r: Option<Vec<bool>>)
    ensures
        match mode {
            CoverageMode::Opaque => r matches Some(v) && v@.len() == layer_cells(cols, rows) && forall|i: int|
                0 <= i < v@.len() ==> #[trigger] v@[i],
            CoverageMode::KeyedOn { token } => r matches Some(v) && v@.len() == tokens@.len() && forall|i: int|
                0 <= i < v@.len() ==> #[trigger] v@[i] == (tokens@[i] != token),
            CoverageMode::Explicit => r is None,
        },
{
    match mode {
        CoverageMode::Opaque => {
            let n = match (cols as usize).checked_mul(rows as usize) {
                Some(v) => v,
                None => usize::MAX,
            };
            let mut v: Vec<bool> = Vec::new();
            let mut i: usize = 0;
            while i < n
                invariant
                    i <= n,
                    v@.len() == i,
                    forall|k: int| 0 <= k < i ==> #[trigger] v@[k],
                decreases n - i,
            {
                v.push(true);
                i += 1;
            }
            Some(v)
        },
        CoverageMode::KeyedOn { token } => {
            let mut v: Vec<bool> = Vec::new();
            let mut i: usize = 0;
            while i < tokens.len()
                invariant
                    i <= tokens@.len(),
                    v@.len() == i,
                    forall|k: int| 0 <= k < i ==> #[trigger] v@[k] == (tokens@[k] != token),
                decreases tokens@.len() - i,
            {
                v.push(tokens[i] != token);
                i += 1;
            }
            Some(v)
        },
        CoverageMode::Explicit => None,
    }
}

/// Check the explicit coverage a resolver supplied for a `cols × rows` layer: present, and
/// one value per cell.
pub fn check_explicit_coverage(supplied: Option<usize>, cols: u32, rows: u32) -> (r: Result<(), RenderError>)
    ensures
        match supplied {
            None => r == Err::<(), RenderError>(RenderError::MissingExplicitCoverage),
            Some(len) => if len == layer_cells(cols, rows) {
                r is Ok
            } else {
                r == Err::<(), RenderError>(
                    RenderError::CoverageSizeMismatch { expected: layer_cells(cols, rows), got: len },
                )
            },
        },
{
    let n = match (cols as usize).checked_mul(rows as usize) {
        Some(v) => v,
        None => usize::MAX,
    };
    match supplied {
        None => Err(RenderError::MissingExplicitCoverage),
        Some(len) => if len == n {
            Ok(())
        } else {
            Err(RenderError::CoverageSizeMismatch { expected: n, got: len })
        },
    }
}


// ---- the text grid ----

/// The replacement shown for a token that is not a printable character.
pub const REPLACEMENT: char = '\u{FFFD}';

/// A token a text grid shows as itself: a Unicode scalar that is neither a control
/// character (C0, DEL, C1) nor a bidirectional-formatting control, which could reorder or
/// hide the surrounding text.
pub open spec fn shown(cp: u32) -> bool {
    &&& (cp <= 0xD7FF || (0xE000 <= cp && cp <= 0x10FFFF))
    &&& !(cp < 0x20 || (0x7F <= cp && cp <= 0x9F))
    &&& !(cp == 0x061C || cp == 0x200E || cp == 0x200F || (0x202A <= cp && cp <= 0x202E) || (
    0x2066 <= cp && cp <= 0x2069))
}

/// The character a cell holding token `cp` shows.
pub open spec fn cell_char(cp: u32) -> char {
    if shown(cp) {
        cp as char
    } else {
        REPLACEMENT
    }
}

/// The characters of the `cols` cells of a row that starts at token `start`.
pub open spec fn row_text(tokens: Seq<u32>, start: int, cols: nat) -> Seq<char> {
    Seq::new(cols, |j: int| cell_char(tokens[start + j]))
}

/// The first `rows` rows of a grid `cols` wide, row-major, with `\n` between rows.
pub open spec fn grid_text(tokens: Seq<u32>, cols: nat, rows: nat) -> Seq<char>
    decreases rows,
{
    if rows == 0 {
        Seq::empty()
    } else if rows == 1 {
        row_text(tokens, 0, cols)
    } else {
        grid_text(tokens, cols, (rows - 1) as nat).push('\n') + row_text(
            tokens,
            (rows - 1) * cols,
            cols,
        )
    }
}

/// `char::from_u32`: the character with scalar value `cp`, or `None` when `cp` is a
/// surrogate or above `0x10FFFF`.
#[verifier::external_body]
fn char_from_u32(cp: u32) -> (r: Option<char>)
    ensures
        (cp <= 0xD7FF || (0xE000 <= cp && cp <= 0x10FFFF)) ==> r == Some(cp as char),
        !(cp <= 0xD7FF || (0xE000 <= cp && cp <= 0x10FFFF)) ==> r is None,
{
    char::from_u32(cp)
}

fn cell_char_exec(cp: u32) -> (c: char)
    ensures
        c == cell_char(cp),
{
    if cp < 0x20 || (0x7F <= cp && cp <= 0x9F) || cp == 0x061C || cp == 0x200E || cp == 0x200F
        || (0x202A <= cp && cp <= 0x202E) || (0x2066 <= cp && cp <= 0x2069) {
        return REPLACEMENT;
    }
    match char_from_u32(cp) {
        Some(c) => c,
        None => REPLACEMENT,
    }
}

/// Compose per-cell output tokens into text: row-major, `\n` between rows. A token that is
/// not a Unicode scalar, or is a control or bidirectional-formatting character, shows as
/// `U+FFFD`: output of untrusted Facets is never taken as valid text.
pub fn compose_codepoints(cols: u32, rows: u32, tokens: &Vec<u32>) -> (s: String)
    requires
        tokens@.len() == cols * rows,
    ensures
        s@ == grid_text(tokens@, cols as nat, rows as nat),
{
    let n = tokens.len();
    let mut s = String::new();
    let mut r: u32 = 0;
    let mut start: usize = 0;
    while r < rows
        invariant
            n == tokens@.len(),
            tokens@.len() == cols * rows,
            r <= rows,
            start == r * cols,
            s@ == grid_text(tokens@, cols as nat, r as nat),
        decreases rows - r,
    {
        assert((r + 1) * cols == r * cols + cols && r * cols + cols <= rows * cols) by (nonlinear_arith)
            requires
                r < rows,
        ;
        let ghost before = s@;
        if r > 0 {
            push_char(&mut s, '\n');
        }
        let ghost row_start = s@;
        let mut c: u32 = 0;
        while c < cols
            invariant
                n == tokens@.len(),
                tokens@.len() == cols * rows,
                r < rows,
                start == r * cols,
                start + cols <= tokens@.len(),
                c <= cols,
                s@ == row_start + row_text(tokens@, start as int, c as nat),
            decreases cols - c,
        {
            let ch = cell_char_exec(tokens[start + c as usize]);
            push_char(&mut s, ch);
            proof {
                assert(row_start + row_text(tokens@, start as int, (c + 1) as nat) =~= row_start
                    + row_text(tokens@, start as int, c as nat) + seq![ch]);
            }
            c += 1;
        }
        proof {
            if r == 0 {
                assert(before =~= Seq::<char>::empty());
                assert(s@ =~= row_text(tokens@, 0, cols as nat));
            } else {
                assert(row_start == before.push('\n'));
            }
        }
        start = start + cols as usize;
        r += 1;
    }
    s
}

/// Every character of a composed grid is a row break, a token shown as itself, or the
/// replacement: no control or bidirectional-formatting character reaches the text.
pub proof fn lemma_grid_text_is_masked(tokens: Seq<u32>, cols: nat, rows: nat, i: int)
    requires
        0 <= i < grid_text(tokens, cols, rows).len(),
    ensures
        ({
            let ch = grid_text(tokens, cols, rows)[i];
            ch == '\n' || ch == REPLACEMENT || shown(ch as u32)
        }),
    decreases rows,
{
    if rows == 1 {
        assert(grid_text(tokens, cols, rows)[i] == cell_char(tokens[i]));
    } else if rows > 1 {
        let prev = grid_text(tokens, cols, (rows - 1) as nat);
        let line = row_text(tokens, (rows - 1) * cols, cols);
        if i < prev.len() {
            assert(grid_text(tokens, cols, rows)[i] == prev[i]);
            lemma_grid_text_is_masked(tokens, cols, (rows - 1) as nat, i);
        } else if i > prev.len() {
            let j = i - prev.len() - 1;
            assert(grid_text(tokens, cols, rows)[i] == line[j]);
        }
    }
}

} // verus!
