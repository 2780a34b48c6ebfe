//! The text of layer inspection and model validation reports, in ASCII tables and
//! Markdown. Sizes and parameter counts arrive already formatted (the formatting of
//! fractional sizes is the caller's), as does the generation time.
use vstd::prelude::*;
use vstd::utf8::encode_utf8;
use crate::layer::{IssueSeverity, LayerInfo, ValidationIssue, ValidationReport, count_severity};
use crate::layer::sizes::{gb_text, large_size_text, size_text, format_gb_text};
use crate::text::{self, decimal};

verus! {

/// `n` copies of a character.
pub open spec fn repeat_char(c: char, n: nat) -> Seq<char> {
    Seq::new(n, |i: int| c)
}

/// `format!("{:<w$}", s)`: `s` followed by spaces up to `w` characters.
pub open spec fn pad_right(s: Seq<char>, w: nat) -> Seq<char> {
    if s.len() < w {
        s + repeat_char(' ', (w - s.len()) as nat)
    } else {
        s
    }
}

/// `format!("{:>w$}", s)`: spaces up to `w` characters, then `s`.
pub open spec fn pad_left(s: Seq<char>, w: nat) -> Seq<char> {
    if s.len() < w {
        repeat_char(' ', (w - s.len()) as nat) + s
    } else {
        s
    }
}

fn push_repeat(out: &mut String, c: char, n: usize)
    ensures
        final(out)@ == old(out)@ + repeat_char(c, n as nat),
{
    let mut k: usize = 0;
    while k < n
        invariant
            k <= n,
            out@ == old(out)@ + repeat_char(c, k as nat),
        decreases n - k,
    {
        let ghost before = out@;
        text::push_char(out, c);
        assert(out@ =~= old(out)@ + repeat_char(c, (k + 1) as nat));
        k = k + 1;
    }
}

fn push_padded_right(out: &mut String, s: &str, w: usize)
    ensures
        final(out)@ == old(out)@ + pad_right(s@, w as nat),
{
    let n = text::chars_of(s).len();
    out.append(s);
    if n < w {
        push_repeat(out, ' ', w - n);
        assert(out@ =~= old(out)@ + pad_right(s@, w as nat));
    }
}

fn push_padded_left(out: &mut String, s: &str, w: usize)
    ensures
        final(out)@ == old(out)@ + pad_left(s@, w as nat),
{
    let n = text::chars_of(s).len();
    if n < w {
        push_repeat(out, ' ', w - n);
    }
    out.append(s);
    assert(out@ =~= old(out)@ + pad_left(s@, w as nat));
}

/// A check's mark: `✓` when it passed, `✗` when it failed.
pub open spec fn mark(b: bool) -> Seq<char> {
    if b {
        "✓"@
    } else {
        "✗"@
    }
}

/// `✓ Pass` or `✗ Fail`.
pub open spec fn pass_fail(b: bool) -> Seq<char> {
    if b {
        "✓ Pass"@
    } else {
        "✗ Fail"@
    }
}

pub open spec fn status_text(b: bool) -> Seq<char> {
    if b {
        "✓ VALID"@
    } else {
        "✗ INVALID"@
    }
}

fn mark_str(b: bool) -> (r: &'static str)
    ensures
        r@ == mark(b),
{
    if b {
        "✓"
    } else {
        "✗"
    }
}

fn pass_fail_str(b: bool) -> (r: &'static str)
    ensures
        r@ == pass_fail(b),
{
    if b {
        "✓ Pass"
    } else {
        "✗ Fail"
    }
}

fn status_str(b: bool) -> (r: &'static str)
    ensures
        r@ == status_text(b),
{
    if b {
        "✓ VALID"
    } else {
        "✗ INVALID"
    }
}

/// The symbol an issue is listed with in an ASCII report.
pub open spec fn ascii_symbol(s: IssueSeverity) -> Seq<char> {
    match s {
        IssueSeverity::Error => "✗"@,
        IssueSeverity::Warning => "⚠"@,
        IssueSeverity::Info => "ℹ"@,
    }
}

/// The label an issue is listed with in a Markdown report.
pub open spec fn markdown_label(s: IssueSeverity) -> Seq<char> {
    match s {
        IssueSeverity::Error => "❌ Error"@,
        IssueSeverity::Warning => "⚠️ Warning"@,
        IssueSeverity::Info => "ℹ️ Info"@,
    }
}

/// An issue's lines in an ASCII report.
pub open spec fn ascii_issue(i: ValidationIssue) -> Seq<char> {
    "  "@ + ascii_symbol(i.severity) + " "@ + i.message@ + "\n"@ + match i.suggestion {
        Some(s) => "    Suggestion: "@ + s@ + "\n"@,
        None => Seq::empty(),
    }
}

/// An issue's lines in a Markdown report.
pub open spec fn markdown_issue(i: ValidationIssue) -> Seq<char> {
    "- **"@ + markdown_label(i.severity) + ":** "@ + i.message@ + "\n"@ + match i.suggestion {
        Some(s) => "  - *Suggestion:* "@ + s@ + "\n"@,
        None => Seq::empty(),
    }
}

pub open spec fn ascii_issues(s: Seq<ValidationIssue>) -> Seq<char>
    decreases s.len(),
{
    if s.len() == 0 {
        Seq::empty()
    } else {
        ascii_issues(s.drop_last()) + ascii_issue(s.last())
    }
}

pub open spec fn markdown_issues(s: Seq<ValidationIssue>) -> Seq<char>
    decreases s.len(),
{
    if s.len() == 0 {
        Seq::empty()
    } else {
        markdown_issues(s.drop_last()) + markdown_issue(s.last())
    }
}

/// The ASCII validation report.
#[verifier::opaque]
pub open spec fn validation_ascii(r: ValidationReport, params: Seq<char>, size: Seq<char>) -> Seq<
    char,
> {
    "Model Validation Report: "@ + r.model_name@ + "\n"@ + "Status: "@ + status_text(r.is_valid)
        + "\n\n"@ + "Validation Checks:\n"@ + "  Architecture: "@ + mark(r.architecture_valid)
        + "\n"@ + "  Tensor Shapes: "@ + mark(r.tensor_shapes_valid) + "\n"@ + "  Connections: "@
        + mark(r.connections_valid) + "\n\n"@ + "Model Statistics:\n"@ + "  Layers: "@ + decimal(
        r.layer_count as nat,
    ) + "\n"@ + "  Parameters: "@ + params + "\n"@ + "  Size: "@ + size + "\n\n"@ + if r.issues@.len()
        == 0 {
        Seq::empty()
    } else {
        "Issues:\n"@ + ascii_issues(r.issues@)
    }
}

/// The Markdown validation report.
#[verifier::opaque]
pub open spec fn validation_markdown(r: ValidationReport, params: Seq<char>, size: Seq<char>) -> Seq<
    char,
> {
    "# Model Validation Report: "@ + r.model_name@ + "\n\n"@ + "**Status:** "@ + status_text(
        r.is_valid,
    ) + "\n\n"@ + "## Validation Checks\n\n"@ + "- Architecture: "@ + pass_fail(r.architecture_valid)
        + "\n"@ + "- Tensor Shapes: "@ + pass_fail(r.tensor_shapes_valid) + "\n"@
        + "- Connections: "@ + pass_fail(r.connections_valid) + "\n\n"@ + "## Model Statistics\n\n"@
        + "- **Layers:** "@ + decimal(r.layer_count as nat) + "\n"@ + "- **Parameters:** "@ + params
        + "\n"@ + "- **Size:** "@ + size + "\n\n"@ + if r.issues@.len() == 0 {
        Seq::empty()
    } else {
        "## Issues ("@ + decimal(count_severity(r.issues@, IssueSeverity::Error)) + " errors, "@
            + decimal(count_severity(r.issues@, IssueSeverity::Warning)) + " warnings)\n\n"@
            + markdown_issues(r.issues@)
    }
}

fn push_ascii_issue(out: &mut String, i: &ValidationIssue)
    ensures
        final(out)@ == old(out)@ + ascii_issue(*i),
{
    out.append("  ");
    let sym = match i.severity {
        IssueSeverity::Error => "✗",
        IssueSeverity::Warning => "⚠",
        IssueSeverity::Info => "ℹ",
    };
    out.append(sym);
    out.append(" ");
    out.append(i.message.as_str());
    out.append("\n");
    match &i.suggestion {
        Some(s) => {
            out.append("    Suggestion: ");
            out.append(s.as_str());
            out.append("\n");
        },
        None => {},
    }
    assert(out@ =~= old(out)@ + ascii_issue(*i));
}

fn push_markdown_issue(out: &mut String, i: &ValidationIssue)
    ensures
        final(out)@ == old(out)@ + markdown_issue(*i),
{
    out.append("- **");
    let label = match i.severity {
        IssueSeverity::Error => "❌ Error",
        IssueSeverity::Warning => "⚠️ Warning",
        IssueSeverity::Info => "ℹ️ Info",
    };
    out.append(label);
    out.append(":** ");
    out.append(i.message.as_str());
    out.append("\n");
    match &i.suggestion {
        Some(s) => {
            out.append("  - *Suggestion:* ");
            out.append(s.as_str());
            out.append("\n");
        },
        None => {},
    }
    assert(out@ =~= old(out)@ + markdown_issue(*i));
}

fn push_decimal(out: &mut String, n: u64)
    ensures
        final(out)@ == old(out)@ + decimal(n as nat),
{
    let d = text::u64_to_decimal(n);
    out.append(d.as_str());
}

/// The ASCII validation report of `report`, with its parameter count and size
/// already formatted.
#[verifier::spinoff_prover]
#[verifier::rlimit(60)]
pub fn generate_validation_ascii(report: &ValidationReport, params_text: &str) -> (r:
    String)
    ensures
        r@ == validation_ascii(*report, params_text@, large_size_text(report.total_size_bytes as nat)),
{
    let mut out = String::new();
    let size_str = report.format_size();
    out.append("Model Validation Report: ");
    out.append(report.model_name.as_str());
    out.append("\n");
    out.append("Status: ");
    out.append(status_str(report.is_valid));
    out.append("\n\n");
    out.append("Validation Checks:\n");
    out.append("  Architecture: ");
    out.append(mark_str(report.architecture_valid));
    out.append("\n");
    out.append("  Tensor Shapes: ");
    out.append(mark_str(report.tensor_shapes_valid));
    out.append("\n");
    out.append("  Connections: ");
    out.append(mark_str(report.connections_valid));
    out.append("\n\n");
    out.append("Model Statistics:\n");
    out.append("  Layers: ");
    push_decimal(&mut out, report.layer_count as u64);
    out.append("\n");
    out.append("  Parameters: ");
    out.append(params_text);
    out.append("\n");
    out.append("  Size: ");
    out.append(size_str.as_str());
    out.append("\n\n");
    let ghost head = out@;
    if report.issues.len() > 0 {
        out.append("Issues:\n");
        let ghost start = out@;
        let mut k: usize = 0;
        while k < report.issues.len()
            invariant
                k <= report.issues@.len(),
                out@ == start + ascii_issues(report.issues@.take(k as int)),
            decreases report.issues.len() - k,
        {
            assert(report.issues@.take(k + 1).drop_last() =~= report.issues@.take(k as int));
            push_ascii_issue(&mut out, &report.issues[k]);
            assert(out@ =~= start + ascii_issues(report.issues@.take(k + 1)));
            k = k + 1;
        }
        assert(report.issues@.take(report.issues@.len() as int) =~= report.issues@);
    }
    proof {
        reveal(validation_ascii);
    }
    assert(out@ =~= validation_ascii(*report, params_text@, size_str@));
    out
}

/// The Markdown validation report of `report`, with its parameter count and size
/// already formatted.
#[verifier::spinoff_prover]
#[verifier::rlimit(60)]
pub fn generate_validation_markdown(report: &ValidationReport, params_text: &str) -> (r:
    String)
    ensures
        r@ == validation_markdown(*report, params_text@, large_size_text(report.total_size_bytes as nat)),
{
    let mut out = String::new();
    let size_str = report.format_size();
    out.append("# Model Validation Report: ");
    out.append(report.model_name.as_str());
    out.append("\n\n");
    out.append("**Status:** ");
    out.append(status_str(report.is_valid));
    out.append("\n\n");
    out.append("## Validation Checks\n\n");
    out.append("- Architecture: ");
    out.append(pass_fail_str(report.architecture_valid));
    out.append("\n");
    out.append("- Tensor Shapes: ");
    out.append(pass_fail_str(report.tensor_shapes_valid));
    out.append("\n");
    out.append("- Connections: ");
    out.append(pass_fail_str(report.connections_valid));
    out.append("\n\n");
    out.append("## Model Statistics\n\n");
    out.append("- **Layers:** ");
    push_decimal(&mut out, report.layer_count as u64);
    out.append("\n");
    out.append("- **Parameters:** ");
    out.append(params_text);
    out.append("\n");
    out.append("- **Size:** ");
    out.append(size_str.as_str());
    out.append("\n\n");
    if report.issues.len() > 0 {
        out.append("## Issues (");
        let e = report.error_count();
        push_decimal(&mut out, e as u64);
        out.append(" errors, ");
        let w = report.warning_count();
        push_decimal(&mut out, w as u64);
        out.append(" warnings)\n\n");
        let ghost start = out@;
        let mut k: usize = 0;
        while k < report.issues.len()
            invariant
                k <= report.issues@.len(),
                out@ == start + markdown_issues(report.issues@.take(k as int)),
            decreases report.issues.len() - k,
        {
            assert(report.issues@.take(k + 1).drop_last() =~= report.issues@.take(k as int));
            push_markdown_issue(&mut out, &report.issues[k]);
            assert(out@ =~= start + markdown_issues(report.issues@.take(k + 1)));
            k = k + 1;
        }
        assert(report.issues@.take(report.issues@.len() as int) =~= report.issues@);
    }
    proof {
        reveal(validation_markdown);
    }
    assert(out@ =~= validation_markdown(*report, params_text@, size_str@));
    out
}

/// `format!("{:?}", shape)` for a list of dimensions: `[d0, d1, ...]`.
pub open spec fn shape_text(s: Seq<usize>) -> Seq<char> {
    "["@ + shape_items(s) + "]"@
}

pub open spec fn shape_items(s: Seq<usize>) -> Seq<char>
    decreases s.len(),
{
    if s.len() == 0 {
        Seq::empty()
    } else if s.len() == 1 {
        decimal(s[0] as nat)
    } else {
        shape_items(s.drop_last()) + ", "@ + decimal(s.last() as nat)
    }
}

fn push_shape(out: &mut String, s: &Vec<usize>)
    ensures
        final(out)@ == old(out)@ + shape_text(s@),
{
    out.append("[");
    let ghost start = out@;
    let mut k: usize = 0;
    while k < s.len()
        invariant
            k <= s@.len(),
            out@ == start + shape_items(s@.take(k as int)),
        decreases s.len() - k,
    {
        assert(s@.take(k + 1).drop_last() =~= s@.take(k as int));
        if k > 0 {
            out.append(", ");
        }
        push_decimal(out, s[k] as u64);
        proof {
            if k == 0 {
                assert(s@.take(1).len() == 1);
            }
        }
        assert(out@ =~= start + shape_items(s@.take(k + 1)));
        k = k + 1;
    }
    assert(s@.take(s@.len() as int) =~= s@);
    out.append("]");
    assert(out@ =~= old(out)@ + shape_text(s@));
}

/// Each layer's size as its report shows it.
pub open spec fn layer_size_texts(ls: Seq<LayerInfo>) -> Seq<Seq<char>> {
    ls.map_values(|l: LayerInfo| size_text(l.size_bytes as nat))
}

/// The sizes of the layers added up.
pub open spec fn layers_size_total(ls: Seq<LayerInfo>) -> nat
    decreases ls.len(),
{
    if ls.len() == 0 {
        0
    } else {
        layers_size_total(ls.drop_last()) + ls.last().size_bytes as nat
    }
}

/// The sizes of the layers added up; they must fit in a `u64`.
pub fn total_layer_size(layers: &Vec<LayerInfo>) -> (r: u64)
    requires
        layers_size_total(layers@) <= u64::MAX,
    ensures
        r == layers_size_total(layers@),
{
    let mut total: u64 = 0;
    let mut k: usize = 0;
    while k < layers.len()
        invariant
            k <= layers@.len(),
            total == layers_size_total(layers@.take(k as int)),
            layers_size_total(layers@) <= u64::MAX,
        decreases layers.len() - k,
    {
        assert(layers@.take(k + 1).drop_last() =~= layers@.take(k as int));
        proof {
            lemma_size_total_prefix(layers@, k + 1);
        }
        total = total + layers[k].size_bytes;
        k = k + 1;
    }
    assert(layers@.take(layers@.len() as int) =~= layers@);
    total
}

proof fn lemma_size_total_prefix(ls: Seq<LayerInfo>, k: int)
    requires
        0 <= k <= ls.len(),
    ensures
        layers_size_total(ls.take(k)) <= layers_size_total(ls),
    decreases ls.len() - k,
{
    if k < ls.len() {
        lemma_size_total_prefix(ls, k + 1);
        assert(ls.take(k + 1).drop_last() =~= ls.take(k));
    } else {
        assert(ls.take(k) =~= ls);
    }
}

/// A layer's row in a Markdown inspection report.
pub open spec fn markdown_row(l: LayerInfo, size: Seq<char>, params: Seq<char>) -> Seq<char> {
    "| "@ + l.id@ + " | "@ + l.name@ + " | "@ + l.layer_type@ + " | "@ + size + " | "@ + params
        + " | "@ + shape_text(l.input_shape@) + " | "@ + shape_text(l.output_shape@) + " |\n"@
}

pub open spec fn markdown_rows(
    ls: Seq<LayerInfo>,
    sizes: Seq<Seq<char>>,
    params: Seq<String>,
) -> Seq<char>
    decreases ls.len(),
{
    if ls.len() == 0 {
        Seq::empty()
    } else {
        markdown_rows(ls.drop_last(), sizes, params) + markdown_row(
            ls.last(),
            sizes[ls.len() - 1],
            params[ls.len() - 1]@,
        )
    }
}

/// The Markdown inspection report. `sizes[i]` and `params[i]` are layer `i`'s
/// formatted size and parameter count; the total size is in GB and the total
/// parameter count arrives formatted.
#[verifier::opaque]
pub open spec fn inspection_markdown(
    model: Seq<char>,
    generated: Seq<char>,
    ls: Seq<LayerInfo>,
    sizes: Seq<Seq<char>>,
    params: Seq<String>,
    total_size_gb: Seq<char>,
    total_params_b: Seq<char>,
) -> Seq<char> {
    "# Layer Inspection Report: "@ + model + "\n\n"@ + "**Generated:** "@ + generated + "\n\n"@
        + "## Layers\n\n"@
        + "| ID | Name | Type | Size | Parameters | Input Shape | Output Shape |\n"@
        + "|---|---|---|---|---|---|---|\n"@ + markdown_rows(ls, sizes, params) + "\n## Summary\n\n"@
        + "- **Total Layers:** "@ + decimal(ls.len()) + "\n"@ + "- **Total Size:** "@
        + total_size_gb + " GB\n"@ + "- **Total Parameters:** "@ + total_params_b + "B\n"@
}

/// The Markdown inspection report of a model's layers.
#[verifier::spinoff_prover]
#[verifier::rlimit(60)]
pub fn generate_inspection_markdown(
    model_name: &str,
    generated: &str,
    layers: &Vec<LayerInfo>,
    params: &Vec<String>,
    total_params_b: &str,
) -> (r: String)
    requires
        params@.len() == layers@.len(),
        layers_size_total(layers@) <= u64::MAX,
    ensures
        r@ == inspection_markdown(
            model_name@,
            generated@,
            layers@,
            layer_size_texts(layers@),
            params@,
            gb_text(layers_size_total(layers@)),
            total_params_b@,
        ),
{
    let total_gb = format_gb_text(total_layer_size(layers));
    let mut out = String::new();
    out.append("# Layer Inspection Report: ");
    out.append(model_name);
    out.append("\n\n");
    out.append("**Generated:** ");
    out.append(generated);
    out.append("\n\n");
    out.append("## Layers\n\n");
    out.append("| ID | Name | Type | Size | Parameters | Input Shape | Output Shape |\n");
    out.append("|---|---|---|---|---|---|---|\n");
    let ghost start = out@;
    let mut k: usize = 0;
    while k < layers.len()
        invariant
            k <= layers@.len(),
            params@.len() == layers@.len(),
            out@ == start + markdown_rows(layers@.take(k as int), layer_size_texts(layers@), params@),
        decreases layers.len() - k,
    {
        assert(layers@.take(k + 1).drop_last() =~= layers@.take(k as int));
        let l = &layers[k];
        out.append("| ");
        out.append(l.id.as_str());
        out.append(" | ");
        out.append(l.name.as_str());
        out.append(" | ");
        out.append(l.layer_type.as_str());
        out.append(" | ");
        let size_str = l.format_size();
        out.append(size_str.as_str());
        out.append(" | ");
        out.append(params[k].as_str());
        out.append(" | ");
        push_shape(&mut out, &l.input_shape);
        out.append(" | ");
        push_shape(&mut out, &l.output_shape);
        out.append(" |\n");
        assert(out@ =~= start + markdown_rows(layers@.take(k + 1), layer_size_texts(layers@), params@));
        k = k + 1;
    }
    assert(layers@.take(layers@.len() as int) =~= layers@);
    out.append("\n## Summary\n\n");
    out.append("- **Total Layers:** ");
    push_decimal(&mut out, layers.len() as u64);
    out.append("\n");
    out.append("- **Total Size:** ");
    out.append(total_gb.as_str());
    out.append(" GB\n");
    out.append("- **Total Parameters:** ");
    out.append(total_params_b);
    out.append("B\n");
    proof {
        reveal(inspection_markdown);
    }
    assert(out@ =~= inspection_markdown(
        model_name@,
        generated@,
        layers@,
        layer_size_texts(layers@),
        params@,
        total_gb@,
        total_params_b@,
    ));
    out
}

/// A text's length in bytes (`str::len`).
pub open spec fn byte_len(s: Seq<char>) -> nat {
    encode_utf8(s).len()
}

pub open spec fn max_nat(a: nat, b: nat) -> nat {
    if a >= b {
        a
    } else {
        b
    }
}

/// The longest id, name and layer type of the layers, in bytes (0 for none).
pub open spec fn longest(ls: Seq<LayerInfo>, field: int) -> nat
    decreases ls.len(),
{
    if ls.len() == 0 {
        0
    } else {
        max_nat(
            longest(ls.drop_last(), field),
            byte_len(
                if field == 0 {
                    ls.last().id@
                } else if field == 1 {
                    ls.last().name@
                } else {
                    ls.last().layer_type@
                },
            ),
        )
    }
}

/// The ID, name and type column widths of an ASCII inspection table: the longest
/// entry, but at least 10, 15 and 15.
pub open spec fn column_widths(ls: Seq<LayerInfo>) -> (nat, nat, nat) {
    (max_nat(longest(ls, 0), 10), max_nat(longest(ls, 1), 15), max_nat(longest(ls, 2), 15))
}

/// One line of an ASCII inspection table.
pub open spec fn ascii_line(
    a: Seq<char>,
    b: Seq<char>,
    c: Seq<char>,
    d: Seq<char>,
    e: Seq<char>,
    w: (nat, nat, nat),
) -> Seq<char> {
    pad_right(a, w.0) + " | "@ + pad_right(b, w.1) + " | "@ + pad_right(c, w.2) + " | "@ + pad_left(
        d,
        12,
    ) + " | "@ + pad_left(e, 12) + "\n"@
}

pub open spec fn ascii_rows(
    ls: Seq<LayerInfo>,
    sizes: Seq<Seq<char>>,
    params: Seq<String>,
    w: (nat, nat, nat),
) -> Seq<char>
    decreases ls.len(),
{
    if ls.len() == 0 {
        Seq::empty()
    } else {
        ascii_rows(ls.drop_last(), sizes, params, w) + ascii_line(
            ls.last().id@,
            ls.last().name@,
            ls.last().layer_type@,
            sizes[ls.len() - 1],
            params[ls.len() - 1]@,
            w,
        )
    }
}

/// The ASCII inspection report.
#[verifier::opaque]
pub open spec fn inspection_ascii(
    model: Seq<char>,
    generated: Seq<char>,
    ls: Seq<LayerInfo>,
    sizes: Seq<Seq<char>>,
    params: Seq<String>,
    total_size_gb: Seq<char>,
    total_params_b: Seq<char>,
) -> Seq<char> {
    let w = column_widths(ls);
    "Layer Inspection Report: "@ + model + "\n"@ + "Generated: "@ + generated + "\n\n"@ + ascii_line(
        "ID"@,
        "Name"@,
        "Type"@,
        "Size"@,
        "Parameters"@,
        w,
    ) + repeat_char('-', w.0 + w.1 + w.2 + 40) + "\n"@ + ascii_rows(ls, sizes, params, w) + "\n"@
        + "Total Layers: "@ + decimal(ls.len()) + "\n"@ + "Total Size: "@ + total_size_gb
        + " GB\n"@ + "Total Parameters: "@ + total_params_b + "B\n"@
}

#[verifier::spinoff_prover]
fn push_ascii_line(
    out: &mut String,
    a: &str,
    b: &str,
    c: &str,
    d: &str,
    e: &str,
    w0: usize,
    w1: usize,
    w2: usize,
)
    ensures
        final(out)@ == old(out)@ + ascii_line(a@, b@, c@, d@, e@, (w0 as nat, w1 as nat, w2 as nat)),
{
    push_padded_right(out, a, w0);
    out.append(" | ");
    push_padded_right(out, b, w1);
    out.append(" | ");
    push_padded_right(out, c, w2);
    out.append(" | ");
    push_padded_left(out, d, 12);
    out.append(" | ");
    push_padded_left(out, e, 12);
    out.append("\n");
    assert(out@ =~= old(out)@ + ascii_line(a@, b@, c@, d@, e@, (w0 as nat, w1 as nat, w2 as nat)));
}

fn field_len(l: &LayerInfo, field: u8) -> (r: usize)
    requires
        field < 3,
    ensures
        r == byte_len(
            if field == 0 {
                l.id@
            } else if field == 1 {
                l.name@
            } else {
                l.layer_type@
            },
        ),
{
    if field == 0 {
        l.id.as_str().as_bytes().len()
    } else if field == 1 {
        l.name.as_str().as_bytes().len()
    } else {
        l.layer_type.as_str().as_bytes().len()
    }
}

fn column_width(layers: &Vec<LayerInfo>, field: u8, floor: usize) -> (r: usize)
    requires
        field < 3,
    ensures
        r == max_nat(longest(layers@, field as int), floor as nat),
{
    let mut m: usize = 0;
    let mut k: usize = 0;
    while k < layers.len()
        invariant
            field < 3,
            k <= layers@.len(),
            m == longest(layers@.take(k as int), field as int),
        decreases layers.len() - k,
    {
        assert(layers@.take(k + 1).drop_last() =~= layers@.take(k as int));
        let n = field_len(&layers[k], field);
        if n > m {
            m = n;
        }
        k = k + 1;
    }
    assert(layers@.take(layers@.len() as int) =~= layers@);
    if m >= floor {
        m
    } else {
        floor
    }
}

/// The ASCII inspection report of a model's layers.
#[verifier::spinoff_prover]
#[verifier::rlimit(60)]
pub fn generate_inspection_ascii(
    model_name: &str,
    generated: &str,
    layers: &Vec<LayerInfo>,
    params: &Vec<String>,
    total_params_b: &str,
) -> (r: String)
    requires
        params@.len() == layers@.len(),
        layers_size_total(layers@) <= u64::MAX,
        column_widths(layers@).0 + column_widths(layers@).1 + column_widths(layers@).2 + 40
            <= usize::MAX,
    ensures
        r@ == inspection_ascii(
            model_name@,
            generated@,
            layers@,
            layer_size_texts(layers@),
            params@,
            gb_text(layers_size_total(layers@)),
            total_params_b@,
        ),
{
    let total_gb = format_gb_text(total_layer_size(layers));
    let w0 = column_width(layers, 0, 10);
    let w1 = column_width(layers, 1, 15);
    let w2 = column_width(layers, 2, 15);
    let ghost w = (w0 as nat, w1 as nat, w2 as nat);
    assert(w == column_widths(layers@));
    let mut out = String::new();
    out.append("Layer Inspection Report: ");
    out.append(model_name);
    out.append("\n");
    out.append("Generated: ");
    out.append(generated);
    out.append("\n\n");
    push_ascii_line(&mut out, "ID", "Name", "Type", "Size", "Parameters", w0, w1, w2);
    push_repeat(&mut out, '-', w0 + w1 + w2 + 40);
    out.append("\n");
    let ghost start = out@;
    let mut k: usize = 0;
    while k < layers.len()
        invariant
            k <= layers@.len(),
            params@.len() == layers@.len(),
            w == (w0 as nat, w1 as nat, w2 as nat),
            out@ == start + ascii_rows(layers@.take(k as int), layer_size_texts(layers@), params@, w),
        decreases layers.len() - k,
    {
        assert(layers@.take(k + 1).drop_last() =~= layers@.take(k as int));
        let l = &layers[k];
        let size_str = l.format_size();
        push_ascii_line(
            &mut out,
            l.id.as_str(),
            l.name.as_str(),
            l.layer_type.as_str(),
            size_str.as_str(),
            params[k].as_str(),
            w0,
            w1,
            w2,
        );
        assert(out@ =~= start + ascii_rows(layers@.take(k + 1), layer_size_texts(layers@), params@, w));
        k = k + 1;
    }
    assert(layers@.take(layers@.len() as int) =~= layers@);
    out.append("\n");
    out.append("Total Layers: ");
    push_decimal(&mut out, layers.len() as u64);
    out.append("\n");
    out.append("Total Size: ");
    out.append(total_gb.as_str());
    out.append(" GB\n");
    out.append("Total Parameters: ");
    out.append(total_params_b);
    out.append("B\n");
    proof {
        reveal(inspection_ascii);
    }
    assert(out@ =~= inspection_ascii(
        model_name@,
        generated@,
        layers@,
        layer_size_texts(layers@),
        params@,
        total_gb@,
        total_params_b@,
    ));
    out
}

/// The status color of an HTML validation report.
pub open spec fn color_of(b: bool) -> Seq<char> {
    if b {
        "#4CAF50"@
    } else {
        "#f44336"@
    }
}

pub open spec fn valid_word(b: bool) -> Seq<char> {
    if b {
        "VALID"@
    } else {
        "INVALID"@
    }
}

pub open spec fn check_class(b: bool) -> Seq<char> {
    if b {
        "pass"@
    } else {
        "fail"@
    }
}

fn color_str(b: bool) -> (r: &'static str)
    ensures
        r@ == color_of(b),
{
    if b {
        "#4CAF50"
    } else {
        "#f44336"
    }
}

fn valid_word_str(b: bool) -> (r: &'static str)
    ensures
        r@ == valid_word(b),
{
    if b {
        "VALID"
    } else {
        "INVALID"
    }
}

fn check_class_str(b: bool) -> (r: &'static str)
    ensures
        r@ == check_class(b),
{
    if b {
        "pass"
    } else {
        "fail"
    }
}

/// An issue's element in an HTML validation report.
pub open spec fn html_issue(i: ValidationIssue) -> Seq<char> {
    let (class, label) = match i.severity {
        IssueSeverity::Error => ("error"@, "Error"@),
        IssueSeverity::Warning => ("warning"@, "Warning"@),
        IssueSeverity::Info => ("info"@, "Info"@),
    };
    "<div class=\"issue "@ + class + "\"><strong>"@ + label + ":</strong> "@ + i.message@ + "</div>"@
}

/// The issues' elements, one per line.
pub open spec fn html_issues(s: Seq<ValidationIssue>) -> Seq<char>
    decreases s.len(),
{
    if s.len() == 0 {
        Seq::empty()
    } else if s.len() == 1 {
        html_issue(s[0])
    } else {
        html_issues(s.drop_last()) + "\n            "@ + html_issue(s.last())
    }
}

fn push_html_issues(out: &mut String, issues: &Vec<ValidationIssue>)
    ensures
        final(out)@ == old(out)@ + html_issues(issues@),
{
    let ghost start = out@;
    let mut k: usize = 0;
    while k < issues.len()
        invariant
            k <= issues@.len(),
            out@ == start + html_issues(issues@.take(k as int)),
        decreases issues.len() - k,
    {
        assert(issues@.take(k + 1).drop_last() =~= issues@.take(k as int));
        if k > 0 {
            out.append("\n            ");
        }
        let (class, label) = match issues[k].severity {
            IssueSeverity::Error => ("error", "Error"),
            IssueSeverity::Warning => ("warning", "Warning"),
            IssueSeverity::Info => ("info", "Info"),
        };
        out.append("<div class=\"issue ");
        out.append(class);
        out.append("\"><strong>");
        out.append(label);
        out.append(":</strong> ");
        out.append(issues[k].message.as_str());
        out.append("</div>");
        proof {
            if k == 0 {
                assert(issues@.take(1).len() == 1);
            }
        }
        assert(out@ =~= start + html_issues(issues@.take(k + 1)));
        k = k + 1;
    }
    assert(issues@.take(issues@.len() as int) =~= issues@);
}

/// The HTML validation report.
#[verifier::opaque]
pub open spec fn validation_html(r: ValidationReport, params: Seq<char>, size: Seq<char>) -> Seq<char> {
    "<!DOCTYPE html>\n<html>\n<head>\n    <meta charset=\"UTF-8\">\n    <title>Model Validation Report</title>\n    <style>\n        body { font-family: Arial, sans-serif; margin: 20px; background: #f5f5f5; }\n        .container { max-width: 900px; margin: 0 auto; background: white; padding: 20px; border-radius: 8px; box-shadow: 0 2px 4px rgba(0,0,0,0.1); }\n        h1 { color: #333; border-bottom: 2px solid "@ + color_of(r.is_valid) + "; padding-bottom: 10px; }\n        .status { font-size: 24px; font-weight: bold; color: "@ + color_of(r.is_valid) + "; margin: 20px 0; }\n        .checks { margin: 20px 0; }\n        .check { padding: 10px; margin: 5px 0; background: #f5f5f5; border-radius: 4px; }\n        .check.pass { border-left: 4px solid #4CAF50; }\n        .check.fail { border-left: 4px solid #f44336; }\n        .stats { background: #e3f2fd; padding: 15px; border-radius: 4px; margin: 20px 0; }\n        .issues { margin: 20px 0; }\n        .issue { padding: 10px; margin: 5px 0; border-radius: 4px; }\n        .issue.error { background: #ffebee; border-left: 4px solid #f44336; }\n        .issue.warning { background: #fff3e0; border-left: 4px solid #ff9800; }\n        .issue.info { background: #e3f2fd; border-left: 4px solid #2196F3; }\n    </style>\n</head>\n<body>\n    <div class=\"container\">\n        <h1>Model Validation Report</h1>\n        <div class=\"status\">"@ + valid_word(r.is_valid) + "</div>\n        <p><strong>Model:</strong> "@ + r.model_name@ + "</p>\n        \n        <div class=\"checks\">\n            <h2>Validation Checks</h2>\n            <div class=\"check "@ + check_class(r.architecture_valid) + "\">Architecture: "@ + pass_fail(r.architecture_valid) + "</div>\n            <div class=\"check "@ + check_class(r.tensor_shapes_valid) + "\">Tensor Shapes: "@ + pass_fail(r.tensor_shapes_valid) + "</div>\n            <div class=\"check "@ + check_class(r.connections_valid) + "\">Connections: "@ + pass_fail(r.connections_valid) + "</div>\n        </div>\n        \n        <div class=\"stats\">\n            <h2>Model Statistics</h2>\n            <p><strong>Layers:</strong> "@ + decimal(r.layer_count as nat) + "</p>\n            <p><strong>Parameters:</strong> "@ + params + "</p>\n            <p><strong>Size:</strong> "@ + size + "</p>\n        </div>\n        \n        <div class=\"issues\">\n            <h2>Issues ("@ + decimal(count_severity(r.issues@, IssueSeverity::Error)) + " errors, "@ + decimal(count_severity(r.issues@, IssueSeverity::Warning)) + " warnings)</h2>\n            "@ + html_issues(r.issues@) + "\n        </div>\n    </div>\n</body>\n</html>"@
}

/// The HTML validation report of `report`, with its parameter count and size
/// already formatted.
#[verifier::spinoff_prover]
#[verifier::rlimit(60)]
pub fn generate_validation_html(report: &ValidationReport, params_text: &str) -> (r:
    String)
    ensures
        r@ == validation_html(*report, params_text@, large_size_text(report.total_size_bytes as nat)),
{
    let mut out = String::new();
    let size_str = report.format_size();
    out.append("<!DOCTYPE html>\n<html>\n<head>\n    <meta charset=\"UTF-8\">\n    <title>Model Validation Report</title>\n    <style>\n        body { font-family: Arial, sans-serif; margin: 20px; background: #f5f5f5; }\n        .container { max-width: 900px; margin: 0 auto; background: white; padding: 20px; border-radius: 8px; box-shadow: 0 2px 4px rgba(0,0,0,0.1); }\n        h1 { color: #333; border-bottom: 2px solid ");
    out.append(color_str(report.is_valid));
    out.append("; padding-bottom: 10px; }\n        .status { font-size: 24px; font-weight: bold; color: ");
    out.append(color_str(report.is_valid));
    out.append("; margin: 20px 0; }\n        .checks { margin: 20px 0; }\n        .check { padding: 10px; margin: 5px 0; background: #f5f5f5; border-radius: 4px; }\n        .check.pass { border-left: 4px solid #4CAF50; }\n        .check.fail { border-left: 4px solid #f44336; }\n        .stats { background: #e3f2fd; padding: 15px; border-radius: 4px; margin: 20px 0; }\n        .issues { margin: 20px 0; }\n        .issue { padding: 10px; margin: 5px 0; border-radius: 4px; }\n        .issue.error { background: #ffebee; border-left: 4px solid #f44336; }\n        .issue.warning { background: #fff3e0; border-left: 4px solid #ff9800; }\n        .issue.info { background: #e3f2fd; border-left: 4px solid #2196F3; }\n    </style>\n</head>\n<body>\n    <div class=\"container\">\n        <h1>Model Validation Report</h1>\n        <div class=\"status\">");
    out.append(valid_word_str(report.is_valid));
    out.append("</div>\n        <p><strong>Model:</strong> ");
    out.append(report.model_name.as_str());
    out.append("</p>\n        \n        <div class=\"checks\">\n            <h2>Validation Checks</h2>\n            <div class=\"check ");
    out.append(check_class_str(report.architecture_valid));
    out.append("\">Architecture: ");
    out.append(pass_fail_str(report.architecture_valid));
    out.append("</div>\n            <div class=\"check ");
    out.append(check_class_str(report.tensor_shapes_valid));
    out.append("\">Tensor Shapes: ");
    out.append(pass_fail_str(report.tensor_shapes_valid));
    out.append("</div>\n            <div class=\"check ");
    out.append(check_class_str(report.connections_valid));
    out.append("\">Connections: ");
    out.append(pass_fail_str(report.connections_valid));
    out.append("</div>\n        </div>\n        \n        <div class=\"stats\">\n            <h2>Model Statistics</h2>\n            <p><strong>Layers:</strong> ");
    push_decimal(&mut out, report.layer_count as u64);
    out.append("</p>\n            <p><strong>Parameters:</strong> ");
    out.append(params_text);
    out.append("</p>\n            <p><strong>Size:</strong> ");
    out.append(size_str.as_str());
    out.append("</p>\n        </div>\n        \n        <div class=\"issues\">\n            <h2>Issues (");
    let e = report.error_count();
    push_decimal(&mut out, e as u64);
    out.append(" errors, ");
    let w = report.warning_count();
    push_decimal(&mut out, w as u64);
    out.append(" warnings)</h2>\n            ");
    push_html_issues(&mut out, &report.issues);
    out.append("\n        </div>\n    </div>\n</body>\n</html>");
    proof {
        reveal(validation_html);
    }
    assert(out@ =~= validation_html(*report, params_text@, size_str@));
    out
}

/// A layer's row in an HTML inspection report.
pub open spec fn html_row(l: LayerInfo, size: Seq<char>, params: Seq<char>) -> Seq<char> {
    "                <tr>\n                    <td>"@ + l.id@ + "</td>\n                    <td>"@ + l.name@ + "</td>\n                    <td>"@ + l.layer_type@ + "</td>\n                    <td>"@ + size + "</td>\n                    <td>"@ + params + "</td>\n                    <td>"@ + shape_text(l.input_shape@) + "</td>\n                    <td>"@ + shape_text(l.output_shape@) + "</td>\n                </tr>\n"@
}

pub open spec fn html_rows(ls: Seq<LayerInfo>, sizes: Seq<Seq<char>>, params: Seq<String>) -> Seq<char>
    decreases ls.len(),
{
    if ls.len() == 0 {
        Seq::empty()
    } else {
        html_rows(ls.drop_last(), sizes, params) + html_row(
            ls.last(),
            sizes[ls.len() - 1],
            params[ls.len() - 1]@,
        )
    }
}

/// The HTML inspection report.
#[verifier::opaque]
pub open spec fn inspection_html(
    model: Seq<char>,
    generated: Seq<char>,
    ls: Seq<LayerInfo>,
    sizes: Seq<Seq<char>>,
    params: Seq<String>,
    total_size_gb: Seq<char>,
    total_params_b: Seq<char>,
) -> Seq<char> {
    "<!DOCTYPE html>\n<html>\n<head>\n    <meta charset=\"UTF-8\">\n    <title>Layer Inspection Report</title>\n    <style>\n        body { font-family: Arial, sans-serif; margin: 20px; background: #f5f5f5; }\n        .container { max-width: 1200px; margin: 0 auto; background: white; padding: 20px; border-radius: 8px; box-shadow: 0 2px 4px rgba(0,0,0,0.1); }\n        h1 { color: #333; border-bottom: 2px solid #4CAF50; padding-bottom: 10px; }\n        .meta { color: #666; margin-bottom: 20px; }\n        table { width: 100%; border-collapse: collapse; margin: 20px 0; }\n        th { background: #4CAF50; color: white; padding: 12px; text-align: left; }\n        td { padding: 10px; border-bottom: 1px solid #ddd; }\n        tr:hover { background: #f5f5f5; }\n        .summary { background: #e8f5e9; padding: 15px; border-radius: 4px; margin-top: 20px; }\n        .summary h3 { margin-top: 0; color: #2e7d32; }\n    </style>\n</head>\n<body>\n    <div class=\"container\">\n        <h1>Layer Inspection Report</h1>\n        <div class=\"meta\">\n            <strong>Model:</strong> "@ + model + "<br>\n            <strong>Generated:</strong> "@ + generated + "\n        </div>\n        <table>\n            <thead>\n                <tr>\n                    <th>ID</th>\n                    <th>Name</th>\n                    <th>Type</th>\n                    <th>Size</th>\n                    <th>Parameters</th>\n                    <th>Input Shape</th>\n                    <th>Output Shape</th>\n                </tr>\n            </thead>\n            <tbody>\n"@ + html_rows(ls, sizes, params) + "            </tbody>\n        </table>\n        <div class=\"summary\">\n            <h3>Summary</h3>\n            <p><strong>Total Layers:</strong> "@ + decimal(ls.len()) + "</p>\n            <p><strong>Total Size:</strong> "@
        + total_size_gb + " GB"@ + "</p>\n            <p><strong>Total Parameters:</strong> "@ + total_params_b + "B"@ + "</p>\n        </div>\n    </div>\n</body>\n</html>"@
}

/// The HTML inspection report of a model's layers.
#[verifier::spinoff_prover]
#[verifier::rlimit(60)]
pub fn generate_inspection_html(
    model_name: &str,
    generated: &str,
    layers: &Vec<LayerInfo>,
    params: &Vec<String>,
    total_params_b: &str,
) -> (r: String)
    requires
        params@.len() == layers@.len(),
        layers_size_total(layers@) <= u64::MAX,
    ensures
        r@ == inspection_html(
            model_name@,
            generated@,
            layers@,
            layer_size_texts(layers@),
            params@,
            gb_text(layers_size_total(layers@)),
            total_params_b@,
        ),
{
    let total_gb = format_gb_text(total_layer_size(layers));
    let mut out = String::new();
    out.append("<!DOCTYPE html>\n<html>\n<head>\n    <meta charset=\"UTF-8\">\n    <title>Layer Inspection Report</title>\n    <style>\n        body { font-family: Arial, sans-serif; margin: 20px; background: #f5f5f5; }\n        .container { max-width: 1200px; margin: 0 auto; background: white; padding: 20px; border-radius: 8px; box-shadow: 0 2px 4px rgba(0,0,0,0.1); }\n        h1 { color: #333; border-bottom: 2px solid #4CAF50; padding-bottom: 10px; }\n        .meta { color: #666; margin-bottom: 20px; }\n        table { width: 100%; border-collapse: collapse; margin: 20px 0; }\n        th { background: #4CAF50; color: white; padding: 12px; text-align: left; }\n        td { padding: 10px; border-bottom: 1px solid #ddd; }\n        tr:hover { background: #f5f5f5; }\n        .summary { background: #e8f5e9; padding: 15px; border-radius: 4px; margin-top: 20px; }\n        .summary h3 { margin-top: 0; color: #2e7d32; }\n    </style>\n</head>\n<body>\n    <div class=\"container\">\n        <h1>Layer Inspection Report</h1>\n        <div class=\"meta\">\n            <strong>Model:</strong> ");
    out.append(model_name);
    out.append("<br>\n            <strong>Generated:</strong> ");
    out.append(generated);
    out.append("\n        </div>\n        <table>\n            <thead>\n                <tr>\n                    <th>ID</th>\n                    <th>Name</th>\n                    <th>Type</th>\n                    <th>Size</th>\n                    <th>Parameters</th>\n                    <th>Input Shape</th>\n                    <th>Output Shape</th>\n                </tr>\n            </thead>\n            <tbody>\n");
    let ghost start = out@;
    let mut k: usize = 0;
    while k < layers.len()
        invariant
            k <= layers@.len(),
            params@.len() == layers@.len(),
            out@ == start + html_rows(layers@.take(k as int), layer_size_texts(layers@), params@),
        decreases layers.len() - k,
    {
        assert(layers@.take(k + 1).drop_last() =~= layers@.take(k as int));
        let l = &layers[k];
        out.append("                <tr>\n                    <td>");
        out.append(l.id.as_str());
        out.append("</td>\n                    <td>");
        out.append(l.name.as_str());
        out.append("</td>\n                    <td>");
        out.append(l.layer_type.as_str());
        out.append("</td>\n                    <td>");
        let size_str = l.format_size();
        out.append(size_str.as_str());
        out.append("</td>\n                    <td>");
        out.append(params[k].as_str());
        out.append("</td>\n                    <td>");
        push_shape(&mut out, &l.input_shape);
        out.append("</td>\n                    <td>");
        push_shape(&mut out, &l.output_shape);
        out.append("</td>\n                </tr>\n");
        assert(out@ =~= start + html_rows(layers@.take(k + 1), layer_size_texts(layers@), params@));
        k = k + 1;
    }
    assert(layers@.take(layers@.len() as int) =~= layers@);
    out.append("            </tbody>\n        </table>\n        <div class=\"summary\">\n            <h3>Summary</h3>\n            <p><strong>Total Layers:</strong> ");
    push_decimal(&mut out, layers.len() as u64);
    out.append("</p>\n            <p><strong>Total Size:</strong> ");
    out.append(total_gb.as_str());
    out.append(" GB");
    out.append("</p>\n            <p><strong>Total Parameters:</strong> ");
    out.append(total_params_b);
    out.append("B");
    out.append("</p>\n        </div>\n    </div>\n</body>\n</html>");
    proof {
        reveal(inspection_html);
    }
    assert(out@ =~= inspection_html(
        model_name@,
        generated@,
        layers@,
        layer_size_texts(layers@),
        params@,
        total_gb@,
        total_params_b@,
    ));
    out
}

} // verus!
