//! The script that a print agent runs to print a label and to watch the print job.
use vstd::prelude::*;

use crate::decimal;
use crate::decimal::signed_text;
use crate::powershell;
use crate::powershell::quote;
use crate::text;
use crate::text::{chars_of, replace_all, string_of, trimmed_start_of};

verus! {

/// The horizontal margin, in hundredths of an inch.
pub const DEFAULT_MARGIN: i32 = 28;

/// The vertical offset, in hundredths of an inch.
pub const DEFAULT_Y_OFFSET: i32 = 780;

/// How long the print queue is watched, in seconds.
pub const DEFAULT_QUEUE_TIMEOUT_SECS: i32 = 60;

/// What a station overrides; lengths are in hundredths of an inch.
#[derive(Clone, Copy)]
pub struct PrintOverrides {
    pub paper_width: Option<i32>,
    pub paper_height: Option<i32>,
    pub margin: Option<i32>,
    pub y_offset: Option<i32>,
    pub queue_timeout_secs: Option<i32>,
}

impl Default for PrintOverrides {
    fn default() -> (r: Self)
        ensures
            r.paper_width is None,
            r.paper_height is None,
            r.margin is None,
            r.y_offset is None,
            r.queue_timeout_secs is None,
    {
        PrintOverrides {
            paper_width: None,
            paper_height: None,
            margin: None,
            y_offset: None,
            queue_timeout_secs: None,
        }
    }
}

/// The script that is used where no other one is configured. The picture comes in
/// base64 on the standard input. A job that leaves the queue is printed; one that
/// stays there with an error fails with exit code 1, one that stays too long with
/// exit code 2; one that is gone before it is seen counts as printed after two
/// seconds.
pub const BUILTIN_TEMPLATE: &'static str = r#"[Console]::OutputEncoding = [Text.Encoding]::UTF8;
$ProgressPreference = 'SilentlyContinue';
Add-Type -AssemblyName System.Drawing;
$bytes = [Convert]::FromBase64String([Console]::In.ReadToEnd());
$script:img = New-Object System.Drawing.Bitmap([System.IO.MemoryStream]::new($bytes));
[Console]::Error.WriteLine('stage: image-loaded');
$printerName = '{{printer_name}}';
if (-not $printerName) { $printerName = (Get-CimInstance Win32_Printer | Where-Object { $_.Default }).Name }
$pd = New-Object System.Drawing.Printing.PrintDocument;
$pd.PrinterSettings.PrinterName = $printerName;
$pd.DocumentName = 'print-agent-' + [guid]::NewGuid().ToString('N');
$pd.PrintController = New-Object System.Drawing.Printing.StandardPrintController;
$pd.DefaultPageSettings.PaperSize = New-Object System.Drawing.Printing.PaperSize('CustomSize', {{paper_width}}, {{paper_height}});
$pd.add_PrintPage({
    param($s, $e)
    $area = $e.PageBounds;
    $sc = ($area.Width - {{margin}}) / $script:img.Width;
    $w = [int]($script:img.Width * $sc);
    $h = [int]($script:img.Height * $sc);
    $y = [int](($area.Height - $h - {{y_offset}}) / 2);
    $e.Graphics.DrawImage($script:img, 0, $y, $w, $h);
});
$pd.Print();
[Console]::Error.WriteLine('stage: print-submitted');
$script:img.Dispose();
$deadline = (Get-Date).AddSeconds({{queue_timeout}});
$graceUntil = (Get-Date).AddSeconds(2);
$seen = $false;
while ((Get-Date) -lt $deadline) {
    $job = @(Get-PrintJob -PrinterName $printerName -ErrorAction SilentlyContinue | Where-Object { $_.DocumentName -eq $pd.DocumentName });
    if ($job.Count -gt 0) {
        if (-not $seen) { [Console]::Error.WriteLine('stage: job-queued') }
        $seen = $true;
        $status = $job[0].JobStatus.ToString();
        if ($status -match 'Error|Offline|PaperOut|NoToner|DoorOpen|Paused|Deleted|Blocked') {
            [Console]::Error.WriteLine("打印任务失败: $status");
            exit 1;
        }
    } elseif ($seen) {
        exit 0;
    } elseif ((Get-Date) -gt $graceUntil) {
        exit 0;
    }
    Start-Sleep -Milliseconds 500;
}
[Console]::Error.WriteLine('打印任务超时（{{queue_timeout}} 秒）仍未完成，请检查打印机状态');
exit 2;"#;

/// The values that a script is made with.
pub struct ScriptValues {
    pub paper_width: i32,
    pub paper_height: i32,
    pub margin: i32,
    pub y_offset: i32,
    pub queue_timeout_secs: i32,
}

/// A template with its placeholders replaced, one kind after the other.
pub open spec fn filled(template: Seq<char>, printer_name: Seq<char>, values: ScriptValues) -> Seq<
    char,
> {
    let s1 = text::replace(template, "{{printer_name}}"@, powershell::quoted(printer_name));
    let s2 = text::replace(s1, "{{paper_width}}"@, decimal::decimal(values.paper_width as int));
    let s3 = text::replace(s2, "{{paper_height}}"@, decimal::decimal(values.paper_height as int));
    let s4 = text::replace(s3, "{{margin}}"@, decimal::decimal(values.margin as int));
    let s5 = text::replace(s4, "{{y_offset}}"@, decimal::decimal(values.y_offset as int));
    text::replace(s5, "{{queue_timeout}}"@, decimal::decimal(values.queue_timeout_secs as int))
}

fn put(script: &Vec<char>, placeholder: &str, value: &str) -> (r: Vec<char>)
    requires
        placeholder@.len() > 0,
    ensures
        r@ == text::replace(script@, placeholder@, value@),
{
    let from = chars_of(placeholder);
    let to = chars_of(value);
    replace_all(script.as_slice(), from.as_slice(), to.as_slice())
}

/// A template with its placeholders replaced.
pub fn render_template(
    template: &str,
    printer_name: &str,
    paper_width: i32,
    paper_height: i32,
    margin: i32,
    y_offset: i32,
    queue_timeout_secs: i32,
) -> (r: String)
    ensures
        r@ == filled(
            template@,
            printer_name@,
            (ScriptValues { paper_width, paper_height, margin, y_offset, queue_timeout_secs }),
        ),
{
    proof {
        reveal_strlit("{{printer_name}}");
        reveal_strlit("{{paper_width}}");
        reveal_strlit("{{paper_height}}");
        reveal_strlit("{{margin}}");
        reveal_strlit("{{y_offset}}");
        reveal_strlit("{{queue_timeout}}");
    }
    let s0 = chars_of(template);
    let s1 = put(&s0, "{{printer_name}}", quote(printer_name).as_str());
    let s2 = put(&s1, "{{paper_width}}", signed_text(paper_width as i64).as_str());
    let s3 = put(&s2, "{{paper_height}}", signed_text(paper_height as i64).as_str());
    let s4 = put(&s3, "{{margin}}", signed_text(margin as i64).as_str());
    let s5 = put(&s4, "{{y_offset}}", signed_text(y_offset as i64).as_str());
    let s6 = put(&s5, "{{queue_timeout}}", signed_text(queue_timeout_secs as i64).as_str());
    string_of(s6.as_slice())
}

/// A template without placeholders is the script itself, whatever the values are.
pub proof fn text_without_placeholders_is_kept(
    template: Seq<char>,
    printer_name: Seq<char>,
    values: ScriptValues,
)
    requires
        !text::occurs(template, "{{"@),
    ensures
        filled(template, printer_name, values) == template,
{
    reveal_strlit("{{printer_name}}");
    reveal_strlit("{{paper_width}}");
    reveal_strlit("{{paper_height}}");
    reveal_strlit("{{margin}}");
    reveal_strlit("{{y_offset}}");
    reveal_strlit("{{queue_timeout}}");
    no_placeholder(template, "{{printer_name}}"@);
    no_placeholder(template, "{{paper_width}}"@);
    no_placeholder(template, "{{paper_height}}"@);
    no_placeholder(template, "{{margin}}"@);
    no_placeholder(template, "{{y_offset}}"@);
    no_placeholder(template, "{{queue_timeout}}"@);
    text::replace_without_occurrence(
        template,
        "{{printer_name}}"@,
        powershell::quoted(printer_name),
    );
    text::replace_without_occurrence(
        template,
        "{{paper_width}}"@,
        decimal::decimal(values.paper_width as int),
    );
    text::replace_without_occurrence(
        template,
        "{{paper_height}}"@,
        decimal::decimal(values.paper_height as int),
    );
    text::replace_without_occurrence(
        template,
        "{{margin}}"@,
        decimal::decimal(values.margin as int),
    );
    text::replace_without_occurrence(
        template,
        "{{y_offset}}"@,
        decimal::decimal(values.y_offset as int),
    );
    text::replace_without_occurrence(
        template,
        "{{queue_timeout}}"@,
        decimal::decimal(values.queue_timeout_secs as int),
    );
}

proof fn no_placeholder(template: Seq<char>, placeholder: Seq<char>)
    requires
        !text::occurs(template, "{{"@),
        placeholder.len() >= 2,
        placeholder[0] == '{',
        placeholder[1] == '{',
    ensures
        !text::occurs(template, placeholder),
{
    reveal_strlit("{{");
    if text::occurs(template, placeholder) {
        let i = choose|i: int| text::occurs_at(template, placeholder, i);
        let found = template.subrange(i, i + placeholder.len());
        assert(found[0] == template[i] && found[1] == template[i + 1]);
        assert(template.subrange(i, i + 2) =~= "{{"@);
        assert(text::occurs_at(template, "{{"@, i));
    }
}

/// The template that is used: the configured file without byte order marks at its
/// start, or the built-in template where there is no such file or it cannot be read.
pub open spec fn chosen_template(file: Option<Seq<char>>) -> Seq<char> {
    match file {
        Some(content) => text::trim_start(content, text::only('\u{feff}')),
        None => BUILTIN_TEMPLATE@,
    }
}

/// The template that is used; `file` is what the configured file holds.
pub fn load_template(file: Option<&str>) -> (r: String)
    ensures
        r@ == chosen_template(
            match file {
                Some(content) => Some(content@),
                None => None,
            },
        ),
{
    match file {
        Some(content) => {
            let chars = chars_of(content);
            string_of(trimmed_start_of(chars.as_slice(), '\u{feff}'))
        },
        None => BUILTIN_TEMPLATE.to_owned(),
    }
}

/// A value that may be overridden.
pub open spec fn or_default(value: Option<i32>, default: i32) -> i32 {
    match value {
        Some(v) => v,
        None => default,
    }
}

fn value_or(value: Option<i32>, default: i32) -> (r: i32)
    ensures
        r == or_default(value, default),
{
    match value {
        Some(v) => v,
        None => default,
    }
}

/// The values of a script: what is overridden, or else the configured paper and the
/// usual margin, offset and timeout.
pub open spec fn values_of(overrides: PrintOverrides, paper_width: i32, paper_height: i32) -> ScriptValues {
    ScriptValues {
        paper_width: or_default(overrides.paper_width, paper_width),
        paper_height: or_default(overrides.paper_height, paper_height),
        margin: or_default(overrides.margin, DEFAULT_MARGIN),
        y_offset: or_default(overrides.y_offset, DEFAULT_Y_OFFSET),
        queue_timeout_secs: or_default(overrides.queue_timeout_secs, DEFAULT_QUEUE_TIMEOUT_SECS),
    }
}

/// The script that prints a label. `file` is what the configured template file holds;
/// `paper_width` and `paper_height` are the configured paper, in hundredths of an
/// inch. Without a printer name the default printer of the system is used.
pub fn build_print_script(
    file: Option<&str>,
    printer_name: &str,
    overrides: &PrintOverrides,
    paper_width: i32,
    paper_height: i32,
) -> (r: String)
    ensures
        r@ == filled(
            chosen_template(
                match file {
                    Some(content) => Some(content@),
                    None => None,
                },
            ),
            printer_name@,
            values_of(*overrides, paper_width, paper_height),
        ),
{
    let template = load_template(file);
    render_template(
        template.as_str(),
        printer_name,
        value_or(overrides.paper_width, paper_width),
        value_or(overrides.paper_height, paper_height),
        value_or(overrides.margin, DEFAULT_MARGIN),
        value_or(overrides.y_offset, DEFAULT_Y_OFFSET),
        value_or(overrides.queue_timeout_secs, DEFAULT_QUEUE_TIMEOUT_SECS),
    )
}

/// The script that the built-in template gives.
pub fn build_script(
    printer_name: &str,
    paper_width: i32,
    paper_height: i32,
    margin: i32,
    y_offset: i32,
    queue_timeout_secs: i32,
) -> (r: String)
    ensures
        r@ == filled(
            BUILTIN_TEMPLATE@,
            printer_name@,
            (ScriptValues { paper_width, paper_height, margin, y_offset, queue_timeout_secs }),
        ),
{
    render_template(
        BUILTIN_TEMPLATE,
        printer_name,
        paper_width,
        paper_height,
        margin,
        y_offset,
        queue_timeout_secs,
    )
}

// ---------------------------------------------------------------------------
// What a script is made with
// ---------------------------------------------------------------------------

/// A script is made with what the station overrides, with the configured paper where it
/// overrides none, and else with a margin of 28 and an offset of 780 hundredths of an inch
/// and a timeout of 60 seconds.
pub proof fn overrides_prevail(overrides: PrintOverrides, width: i32, height: i32)
    ensures
        ({
            let values = values_of(overrides, width, height);
            &&& overrides.paper_width matches Some(w) ==> values.paper_width == w
            &&& overrides.paper_width is None ==> values.paper_width == width
            &&& overrides.paper_height matches Some(h) ==> values.paper_height == h
            &&& overrides.paper_height is None ==> values.paper_height == height
            &&& overrides.margin matches Some(m) ==> values.margin == m
            &&& overrides.margin is None ==> values.margin == 28
            &&& overrides.y_offset matches Some(y) ==> values.y_offset == y
            &&& overrides.y_offset is None ==> values.y_offset == 780
            &&& overrides.queue_timeout_secs matches Some(t) ==> values.queue_timeout_secs == t
            &&& overrides.queue_timeout_secs is None ==> values.queue_timeout_secs == 60
        }),
{
}

/// The configured template is used where there is one, without a byte order mark at its
/// start, and else the built-in one.
pub proof fn configured_template_is_used(content: Seq<char>)
    ensures
        content.len() == 0 || content[0] != '\u{feff}' ==> chosen_template(Some(content)) == content
            && chosen_template(Some(seq!['\u{feff}'] + content)) == content,
        chosen_template(None) == BUILTIN_TEMPLATE@,
{
    let marked = seq!['\u{feff}'] + content;
    assert(marked.skip(1) =~= content);
    assert(text::only('\u{feff}')(marked[0]));
    if content.len() == 0 || content[0] != '\u{feff}' {
        assert(content.len() > 0 ==> !text::only('\u{feff}')(content[0]));
        assert(text::trim_start(content, text::only('\u{feff}')) == content);
        assert(text::trim_start(marked, text::only('\u{feff}')) == text::trim_start(
            content,
            text::only('\u{feff}'),
        ));
    }
}

/// Each placeholder of a template is replaced by its own value: the name of the printer, as
/// it stands between quotes, and the numbers in decimal. What stands around it stays.
pub proof fn placeholders_get_their_values(
    before: Seq<char>,
    after: Seq<char>,
    printer: Seq<char>,
    values: ScriptValues,
)
    requires
        text::lacks(before, '{'),
        text::lacks(after, '{'),
        text::lacks(powershell::quoted(printer), '{'),
    ensures
        filled(before + "{{printer_name}}"@ + after, printer, values) == before
            + powershell::quoted(printer) + after,
        filled(before + "{{paper_width}}"@ + after, printer, values) == before + decimal::decimal(
            values.paper_width as int,
        ) + after,
        filled(before + "{{paper_height}}"@ + after, printer, values) == before + decimal::decimal(
            values.paper_height as int,
        ) + after,
        filled(before + "{{margin}}"@ + after, printer, values) == before + decimal::decimal(
            values.margin as int,
        ) + after,
        filled(before + "{{y_offset}}"@ + after, printer, values) == before + decimal::decimal(
            values.y_offset as int,
        ) + after,
        filled(before + "{{queue_timeout}}"@ + after, printer, values) == before
            + decimal::decimal(values.queue_timeout_secs as int) + after,
{
    let name = powershell::quoted(printer);
    let n1 = decimal::decimal(values.paper_width as int);
    let n2 = decimal::decimal(values.paper_height as int);
    let n3 = decimal::decimal(values.margin as int);
    let n4 = decimal::decimal(values.y_offset as int);
    let n5 = decimal::decimal(values.queue_timeout_secs as int);
    decimal::decimal_is_digits(values.paper_width as int);
    decimal::decimal_is_digits(values.paper_height as int);
    decimal::decimal_is_digits(values.margin as int);
    decimal::decimal_is_digits(values.y_offset as int);
    decimal::decimal_is_digits(values.queue_timeout_secs as int);
    assert(text::lacks(n1, '{') && text::lacks(n2, '{') && text::lacks(n3, '{'));
    assert(text::lacks(n4, '{') && text::lacks(n5, '{'));
    placeholders_are_apart();
    let p0 = "{{printer_name}}"@;
    let p1 = "{{paper_width}}"@;
    let p2 = "{{paper_height}}"@;
    let p3 = "{{margin}}"@;
    let p4 = "{{y_offset}}"@;
    let p5 = "{{queue_timeout}}"@;
    one_replaced(before, p0, after, name);
    kept(before + name + after, p1, n1);
    kept(before + name + after, p2, n2);
    kept(before + name + after, p3, n3);
    kept(before + name + after, p4, n4);
    kept(before + name + after, p5, n5);
    other_kept(before, p1, after, p0, name);
    one_replaced(before, p1, after, n1);
    kept(before + n1 + after, p2, n2);
    kept(before + n1 + after, p3, n3);
    kept(before + n1 + after, p4, n4);
    kept(before + n1 + after, p5, n5);
    other_kept(before, p2, after, p0, name);
    other_kept(before, p2, after, p1, n1);
    one_replaced(before, p2, after, n2);
    kept(before + n2 + after, p3, n3);
    kept(before + n2 + after, p4, n4);
    kept(before + n2 + after, p5, n5);
    other_kept(before, p3, after, p0, name);
    other_kept(before, p3, after, p1, n1);
    other_kept(before, p3, after, p2, n2);
    one_replaced(before, p3, after, n3);
    kept(before + n3 + after, p4, n4);
    kept(before + n3 + after, p5, n5);
    other_kept(before, p4, after, p0, name);
    other_kept(before, p4, after, p1, n1);
    other_kept(before, p4, after, p2, n2);
    other_kept(before, p4, after, p3, n3);
    one_replaced(before, p4, after, n4);
    kept(before + n4 + after, p5, n5);
    other_kept(before, p5, after, p0, name);
    other_kept(before, p5, after, p1, n1);
    other_kept(before, p5, after, p2, n2);
    other_kept(before, p5, after, p3, n3);
    other_kept(before, p5, after, p4, n4);
    one_replaced(before, p5, after, n5);
}

/// A placeholder starts with two braces and has no other opening brace.
spec fn is_placeholder(p: Seq<char>) -> bool {
    &&& p.len() > 4
    &&& p[0] == '{'
    &&& p[1] == '{'
    &&& p[p.len() - 1] == '}'
    &&& p[p.len() - 2] == '}'
    &&& forall|i: int| 2 <= i < p.len() ==> #[trigger] p[i] != '{'
    &&& forall|i: int| 2 <= i < p.len() - 2 ==> #[trigger] p[i] != '}'
}

proof fn placeholders_are_apart()
    ensures
        is_placeholder("{{printer_name}}"@),
        is_placeholder("{{paper_width}}"@),
        is_placeholder("{{paper_height}}"@),
        is_placeholder("{{margin}}"@),
        is_placeholder("{{y_offset}}"@),
        is_placeholder("{{queue_timeout}}"@),
        "{{printer_name}}"@.len() == 16,
        "{{paper_width}}"@.len() == 15,
        "{{paper_height}}"@.len() == 16,
        "{{margin}}"@.len() == 10,
        "{{y_offset}}"@.len() == 12,
        "{{queue_timeout}}"@.len() == 17,
        "{{printer_name}}"@ != "{{paper_height}}"@,
{
    reveal_strlit("{{printer_name}}");
    reveal_strlit("{{paper_width}}");
    reveal_strlit("{{paper_height}}");
    reveal_strlit("{{margin}}");
    reveal_strlit("{{y_offset}}");
    reveal_strlit("{{queue_timeout}}");
    assert("{{printer_name}}"@[3] == 'r' && "{{paper_height}}"@[3] == 'a');
}

proof fn one_replaced(before: Seq<char>, p: Seq<char>, after: Seq<char>, to: Seq<char>)
    requires
        is_placeholder(p),
        text::lacks(before, '{'),
        text::lacks(after, '{'),
    ensures
        text::replace(before + p + after, p, to) == before + to + after,
{
    let s = before + p + after;
    let i = before.len() as int;
    assert(s.subrange(i, i + p.len()) =~= p);
    assert forall|j: int| 0 <= j < i implies !text::occurs_at(s, p, j) by {
        if text::occurs_at(s, p, j) {
            assert(s.subrange(j, j + p.len())[0] == s[j]);
            assert(s[j] == before[j]);
        }
    }
    assert(text::first_at(s, p, i));
    text::find_is_first(s, p, i);
    assert(s.take(i) =~= before);
    assert(s.skip(i + p.len()) =~= after);
    no_brace_no_placeholder(after, p);
    text::replace_without_occurrence(after, p, to);
}

proof fn no_brace_no_placeholder(s: Seq<char>, p: Seq<char>)
    requires
        is_placeholder(p),
        text::lacks(s, '{'),
    ensures
        !text::occurs(s, p),
{
    if text::occurs(s, p) {
        let i = choose|i: int| text::occurs_at(s, p, i);
        assert(s.subrange(i, i + p.len())[0] == s[i]);
    }
}

proof fn kept(s: Seq<char>, p: Seq<char>, to: Seq<char>)
    requires
        is_placeholder(p),
        text::lacks(s, '{'),
    ensures
        text::replace(s, p, to) == s,
{
    no_brace_no_placeholder(s, p);
    text::replace_without_occurrence(s, p, to);
}

proof fn other_kept(
    before: Seq<char>,
    held: Seq<char>,
    after: Seq<char>,
    p: Seq<char>,
    to: Seq<char>,
)
    requires
        is_placeholder(p),
        is_placeholder(held),
        p != held,
        text::lacks(before, '{'),
        text::lacks(after, '{'),
    ensures
        text::replace(before + held + after, p, to) == before + held + after,
{
    let s = before + held + after;
    let n = before.len() as int;
    if text::occurs(s, p) {
        let i = choose|i: int| text::occurs_at(s, p, i);
        text::occurrence_is_a_match(s, p, i);
        assert(p[0] == s[i + 0]);
        assert(p[1] == s[i + 1]);
        if i < n {
            assert(s[i] == before[i]);
        } else if i >= n + held.len() {
            assert(s[i] == after[i - n - held.len()]);
        } else if i > n {
            if i == n + 1 {
                assert(s[i + 1] == held[2]);
            } else {
                assert(s[i] == held[i - n]);
            }
        }
        assert(i == n);
        if p.len() < held.len() {
            let k = p.len() - 1;
            assert(p[k] == s[i + k]);
            assert(p[k - 1] == s[i + (k - 1)]);
            assert(s[i + (k - 1)] == held[k - 1]);
            assert(held[k - 1] != '}');
        } else if p.len() > held.len() {
            let k = held.len() - 1;
            assert(p[k - 1] == s[i + (k - 1)]);
            assert(s[i + (k - 1)] == held[k - 1]);
            assert(p[k - 1] != '}');
        } else {
            assert forall|k: int| 0 <= k < p.len() implies p[k] == held[k] by {
                assert(p[k] == s[i + k]);
            }
            assert(p =~= held);
        }
    }
    text::replace_without_occurrence(s, p, to);
}

/// A length that is given prevails over the configured one.
pub proof fn given_lengths_prevail(value: i32, default: i32)
    ensures
        or_default(Some(value), default) == value,
        or_default(None, default) == default,
{
}

} // verus!
