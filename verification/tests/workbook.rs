use std::io::{Cursor, Write};

use embedded_trials::plugin::{get_table, read_window, try_get_table};
use zip::write::SimpleFileOptions;

fn minimal_xlsx() -> Vec<u8> {
    let files: [(&str, &str); 5] = [
        (
            "[Content_Types].xml",
            r#"<?xml version="1.0" encoding="UTF-8" standalone="yes"?><Types xmlns="http://schemas.openxmlformats.org/package/2006/content-types"><Default Extension="rels" ContentType="application/vnd.openxmlformats-package.relationships+xml"/><Default Extension="xml" ContentType="application/xml"/><Override PartName="/xl/workbook.xml" ContentType="application/vnd.openxmlformats-officedocument.spreadsheetml.sheet.main+xml"/><Override PartName="/xl/worksheets/sheet1.xml" ContentType="application/vnd.openxmlformats-officedocument.spreadsheetml.worksheet+xml"/></Types>"#,
        ),
        (
            "_rels/.rels",
            r#"<?xml version="1.0" encoding="UTF-8" standalone="yes"?><Relationships xmlns="http://schemas.openxmlformats.org/package/2006/relationships"><Relationship Id="rId1" Type="http://schemas.openxmlformats.org/officeDocument/2006/relationships/officeDocument" Target="xl/workbook.xml"/></Relationships>"#,
        ),
        (
            "xl/workbook.xml",
            r#"<?xml version="1.0" encoding="UTF-8" standalone="yes"?><workbook xmlns="http://schemas.openxmlformats.org/spreadsheetml/2006/main" xmlns:r="http://schemas.openxmlformats.org/officeDocument/2006/relationships"><sheets><sheet name="Data" sheetId="1" r:id="rId1"/></sheets></workbook>"#,
        ),
        (
            "xl/_rels/workbook.xml.rels",
            r#"<?xml version="1.0" encoding="UTF-8" standalone="yes"?><Relationships xmlns="http://schemas.openxmlformats.org/package/2006/relationships"><Relationship Id="rId1" Type="http://schemas.openxmlformats.org/officeDocument/2006/relationships/worksheet" Target="worksheets/sheet1.xml"/></Relationships>"#,
        ),
        (
            "xl/worksheets/sheet1.xml",
            r#"<?xml version="1.0" encoding="UTF-8" standalone="yes"?><worksheet xmlns="http://schemas.openxmlformats.org/spreadsheetml/2006/main"><sheetData><row r="1"><c r="A1" t="inlineStr"><is><t>name</t></is></c><c r="B1"><v>42</v></c></row><row r="2"><c r="A2" t="inlineStr"><is><t>x</t></is></c><c r="B2" t="b"><v>1</v></c></row></sheetData></worksheet>"#,
        ),
    ];
    let mut writer = zip::ZipWriter::new(Cursor::new(Vec::new()));
    let options = SimpleFileOptions::default().compression_method(zip::CompressionMethod::Stored);
    for (name, body) in files {
        writer.start_file(name, options).unwrap();
        writer.write_all(body.as_bytes()).unwrap();
    }
    writer.finish().unwrap().into_inner()
}

#[test]
fn get_table_reads_a_window() {
    let data = minimal_xlsx();
    let table = get_table(&data, b"Data", b"0", b"0", b"2", b"2").unwrap();
    assert_eq!(String::from_utf8(table).unwrap(), "name\t42\nx\ttrue");
}

#[test]
fn get_table_pads_with_null() {
    let data = minimal_xlsx();
    let table = get_table(&data, b"Data", b"1", b"1", b"2", b"2").unwrap();
    assert_eq!(String::from_utf8(table).unwrap(), "true\tnull\nnull\tnull");
}

#[test]
fn get_table_reports_a_missing_sheet() {
    let data = minimal_xlsx();
    let e = get_table(&data, b"Other", b"0", b"0", b"1", b"1").unwrap_err();
    assert!(e.starts_with("Sheet read error: "), "{e}");
}

#[test]
fn try_get_table_refuses_an_overflowing_window_only_after_reading() {
    let data = minimal_xlsx();
    let huge = usize::MAX.to_string();
    assert_eq!(try_get_table(&data, b"Data", b"0", huge.as_bytes(), b"1", b"1"), None);
    // A missing sheet is reported whatever the window.
    let e = try_get_table(&data, b"Other", b"0", huge.as_bytes(), b"1", b"1").unwrap().unwrap_err();
    assert!(e.starts_with("Sheet read error: "), "{e}");
    // So is a file that is not a workbook.
    let e = try_get_table(b"junk", b"Data", b"0", huge.as_bytes(), b"1", b"1").unwrap().unwrap_err();
    assert!(e.starts_with("Failed to open workbook: "), "{e}");
    assert_eq!(
        try_get_table(&data, b"Data", b"0", b"0", b"2", b"1"),
        Some(Ok(b"name\t42".to_vec()))
    );
}

#[test]
fn read_window_gives_the_parsed_window() {
    let data = minimal_xlsx();
    let w = read_window(&data, b"Data", b"+1", b"0", b"3", b"2").ok().unwrap();
    assert_eq!((w.col, w.row, w.width, w.height), (1, 0, 3, 2));
}

#[test]
fn get_table_of_empty_windows() {
    let data = minimal_xlsx();
    assert_eq!(get_table(&data, b"Data", b"5", b"5", b"9", b"0").unwrap(), Vec::<u8>::new());
    assert_eq!(get_table(&data, b"Data", b"0", b"0", b"0", b"3").unwrap(), b"\n\n".to_vec());
}
