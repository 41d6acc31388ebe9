//! Printing on the own machine.
use vstd::prelude::*;

use crate::decimal;
use crate::decimal::{signed_text, unsigned_text};
use crate::powershell;
use crate::powershell::quote;

verus! {

/// The environment variable that tells the print script where the picture is.
pub const IMAGE_PATH_ENV: &'static str = "QR_LABEL_IMAGE";

/// The print script up to the name of the printer.
pub const SCRIPT_HEAD: &'static str = r#"Add-Type -AssemblyName System.Drawing;
$script:img = New-Object System.Drawing.Bitmap([System.IO.MemoryStream]::new([System.IO.File]::ReadAllBytes($env:QR_LABEL_IMAGE)));
$pd = New-Object System.Drawing.Printing.PrintDocument;
$pd.PrinterSettings.PrinterName = '"#;

/// The print script from the name of the printer to the size of the paper.
pub const SCRIPT_MIDDLE: &'static str = r#"';
$pd.PrintController = New-Object System.Drawing.Printing.StandardPrintController;
$pd.DefaultPageSettings.PaperSize = New-Object System.Drawing.Printing.PaperSize('CustomSize', "#;

/// The print script from the size of the paper on.
pub const SCRIPT_TAIL: &'static str = r#");
$pd.add_PrintPage({
    param($s, $e)
    $area = $e.PageBounds;
    $sc = ($area.Width - 28) / $script:img.Width;
    $w = [int]($script:img.Width * $sc);
    $h = [int]($script:img.Height * $sc);
    $y = [int](($area.Height - $h - 780) / 2);
    $e.Graphics.DrawImage($script:img, 0, $y, $w, $h);
});
$pd.Print();
$script:img.Dispose();
Remove-Item -LiteralPath $env:QR_LABEL_IMAGE -Force;"#;

/// The script that prints a label.
pub open spec fn print_script(printer_name: Seq<char>, paper_width: i32, paper_height: i32) -> Seq<
    char,
> {
    SCRIPT_HEAD@ + powershell::quoted(printer_name) + SCRIPT_MIDDLE@ + decimal::decimal(
        paper_width as int,
    ) + ", "@ + decimal::decimal(paper_height as int) + SCRIPT_TAIL@
}

/// The script that prints a label on paper of the given size, in hundredths of an
/// inch. It reads the picture from the file that `QR_LABEL_IMAGE` names, and removes
/// the file in the end.
pub fn build_print_script(printer_name: &str, paper_width: i32, paper_height: i32) -> (r: String)
    ensures
        r@ == print_script(printer_name@, paper_width, paper_height),
{
    let mut r = SCRIPT_HEAD.to_owned();
    r.append(quote(printer_name).as_str());
    r.append(SCRIPT_MIDDLE);
    r.append(signed_text(paper_width as i64).as_str());
    r.append(", ");
    r.append(signed_text(paper_height as i64).as_str());
    r.append(SCRIPT_TAIL);
    r
}

/// What follows the opening quote before the name of the printer is read by PowerShell
/// as that name, unless a typographic quote stands in it.
pub proof fn printer_name_is_read_back(
    printer_name: Seq<char>,
    paper_width: i32,
    paper_height: i32,
)
    requires
        powershell::is_plain(printer_name),
    ensures
        SCRIPT_HEAD@.len() > 0 && SCRIPT_HEAD@.last() == '\'',
        powershell::literal(
            print_script(printer_name, paper_width, paper_height).skip(SCRIPT_HEAD@.len() as int),
        ) matches Some((content, _)) && content == printer_name,
{
    reveal_strlit(r#"Add-Type -AssemblyName System.Drawing;
$script:img = New-Object System.Drawing.Bitmap([System.IO.MemoryStream]::new([System.IO.File]::ReadAllBytes($env:QR_LABEL_IMAGE)));
$pd = New-Object System.Drawing.Printing.PrintDocument;
$pd.PrinterSettings.PrinterName = '"#);
    reveal_strlit(r#"';
$pd.PrintController = New-Object System.Drawing.Printing.StandardPrintController;
$pd.DefaultPageSettings.PaperSize = New-Object System.Drawing.Printing.PaperSize('CustomSize', "#);
    let rest = SCRIPT_MIDDLE@.skip(1) + decimal::decimal(paper_width as int) + ", "@
        + decimal::decimal(paper_height as int) + SCRIPT_TAIL@;
    assert(print_script(printer_name, paper_width, paper_height).skip(SCRIPT_HEAD@.len() as int)
        =~= powershell::quoted(printer_name) + seq!['\''] + rest);
    powershell::literal_of_quoted(printer_name, rest);
}

/// The name of the file that a picture is stored in until it is printed.
pub open spec fn picture_name(process_id: u32, timestamp: u128) -> Seq<char> {
    "qr-label-"@ + decimal::decimal(process_id as int) + "-"@ + decimal::decimal(timestamp as int)
        + ".png"@
}

/// The name of the file that a picture is stored in until it is printed.
pub fn picture_file_name(process_id: u32, timestamp: u128) -> (r: String)
    ensures
        r@ == picture_name(process_id, timestamp),
{
    let mut r = "qr-label-".to_owned();
    r.append(unsigned_text(process_id as u128).as_str());
    r.append("-");
    r.append(unsigned_text(timestamp).as_str());
    r.append(".png");
    r
}

/// The script names the printer, and then the width and the height of the paper, in this
/// order.
pub proof fn script_names_printer_and_paper(printer: Seq<char>, width: i32, height: i32)
    ensures
        ({
            let head = SCRIPT_HEAD@ + powershell::quoted(printer) + SCRIPT_MIDDLE@;
            let script = print_script(printer, width, height);
            &&& script.take(head.len() as int) == head
            &&& script.skip(head.len() as int) == decimal::decimal(width as int) + ", "@
                + decimal::decimal(height as int) + SCRIPT_TAIL@
        }),
{
    let head = SCRIPT_HEAD@ + powershell::quoted(printer) + SCRIPT_MIDDLE@;
    let tail = decimal::decimal(width as int) + ", "@ + decimal::decimal(height as int)
        + SCRIPT_TAIL@;
    let script = print_script(printer, width, height);
    assert(script =~= head + tail);
    assert(script.take(head.len() as int) =~= head);
    assert(script.skip(head.len() as int) =~= tail);
}

/// The file of a picture is named after the process and the time.
pub proof fn pictures_are_named(process_id: u32, timestamp: u128)
    ensures
        picture_name(process_id, timestamp) == "qr-label-"@ + decimal::decimal(process_id as int)
            + seq!['-'] + decimal::decimal(timestamp as int) + ".png"@,
{
    reveal_strlit("-");
    assert("-"@ =~= seq!['-']);
}

} // verus!
