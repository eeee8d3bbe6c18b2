use invoice_tool::commands::{is_pdf_extension, sort_pdf_entries, str_le};
use invoice_tool::cover_generator::script_failure_message;
use invoice_tool::invoice_parser::PdfEntry;
use invoice_tool::pdf_merge::{debug_report, ContentObject, ContentStreamInfo, PageInfo};
use invoice_tool::py_merge::merge_script_failure;

fn entry(path: &str, owner: &str) -> PdfEntry {
    PdfEntry { path: path.to_string(), owner: owner.to_string() }
}

#[test]
fn pdf_extension_ignores_ascii_case() {
    assert!(is_pdf_extension("pdf"));
    assert!(is_pdf_extension("PDF"));
    assert!(is_pdf_extension("Pdf"));
    assert!(!is_pdf_extension("pdfx"));
    assert!(!is_pdf_extension("ofd"));
    assert!(!is_pdf_extension(""));
}

#[test]
fn str_order_matches_std() {
    let samples = ["", "a", "ab", "b", "张三", "李四", "A", "a/b.pdf", "a/c.pdf"];
    for x in samples {
        for y in samples {
            assert_eq!(str_le(x, y), x <= y, "{} {}", x, y);
        }
    }
}

#[test]
fn entries_sorted_by_path() {
    let sorted = sort_pdf_entries(vec![
        entry("/w/李四/b.pdf", "李四"),
        entry("/w/张三/a.pdf", "张三"),
        entry("/w/李四/a.pdf", "李四"),
    ]);
    let paths: Vec<&str> = sorted.iter().map(|e| e.path.as_str()).collect();
    let mut expected = vec!["/w/李四/b.pdf", "/w/张三/a.pdf", "/w/李四/a.pdf"];
    expected.sort();
    assert_eq!(paths, expected);
    assert_eq!(sorted.len(), 3);
    assert!(sort_pdf_entries(Vec::new()).is_empty());
}

#[test]
fn sort_keeps_order_of_equal_paths() {
    let sorted = sort_pdf_entries(vec![
        entry("/w/b.pdf", "first"),
        entry("/w/a.pdf", "x"),
        entry("/w/b.pdf", "second"),
        entry("/w/b.pdf", "third"),
    ]);
    let owners: Vec<&str> = sorted.iter().map(|e| e.owner.as_str()).collect();
    assert_eq!(owners, vec!["x", "first", "second", "third"]);
}

#[test]
fn debug_report_lists_pages_and_streams() {
    let pages = vec![
        PageInfo {
            page_number: 1,
            object_number: 3,
            generation: 0,
            contents: vec![
                ContentStreamInfo { object_number: 5, generation: 0, object: ContentObject::Stream { length: 120 } },
                ContentStreamInfo { object_number: 6, generation: 1, object: ContentObject::NotStream },
                ContentStreamInfo {
                    object_number: 7,
                    generation: 0,
                    object: ContentObject::Failed { message: "missing".to_string() },
                },
            ],
            decoded: Ok(300),
        },
        PageInfo { page_number: 2, object_number: 9, generation: 0, contents: Vec::new(), decoded: Err("bad".to_string()) },
    ];
    let expected = format!(
        "PDF: {}, 页面数: {}\n\n=== 页面 {} (页码: {}, ID: {:?}) ===\n内容流ID: {:?}\n  流5长度: 120\n  对象6不是流\n  获取对象7失败: missing\n解码后内容长度: 300\n\n=== 页面 2 (页码: 2, ID: {:?}) ===\n无内容流\n解码内容失败: bad\n",
        "x.pdf",
        2,
        1,
        1,
        (3u32, 0u16),
        vec![(5u32, 0u16), (6, 1), (7, 0)],
        (9u32, 0u16)
    );
    assert_eq!(debug_report("x.pdf", &pages), expected);
    assert_eq!(debug_report("e.pdf", &Vec::new()), "PDF: e.pdf, 页面数: 0\n");
}

#[test]
fn script_failure_messages() {
    assert_eq!(script_failure_message(b"Traceback"), "Python脚本执行失败: Traceback");
    assert_eq!(
        merge_script_failure(b"out", b"err"),
        "Python脚本执行失败:\nstdout: out\nstderr: err"
    );
    assert_eq!(
        merge_script_failure(&[0x6f, 0xFF], &[0xFF]),
        "Python脚本执行失败:\nstdout: o\u{FFFD}\nstderr: 无法解码错误信息"
    );
}
