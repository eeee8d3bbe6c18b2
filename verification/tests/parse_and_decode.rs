use invoice_tool::invoice_parser::{
    decode_tool_output, extract_text, import_invoices, parse_one, parse_with_file_name,
    set_pdftotext_path,
    tool_failure_message, InvoicePatterns, ParsedInvoice, PdfExtraction,
};
use invoice_tool::slot::PathSlot;

fn input(path: &str, output: Result<&str, &str>) -> PdfExtraction {
    PdfExtraction {
        path: path.to_string(),
        owner: "张三".to_string(),
        output: output.map(|s| s.to_string()).map_err(|e| e.to_string()),
    }
}

const VAT_TEXT: &str = "电子发票（普通发票）                发票号码：24312000000012345678\n\
                                    开票日期：2024年03月15日\n\
购 名称：上海某某科技有限公司              销 名称：某某餐饮管理有限公司\n\
  *餐饮服务*餐饮费                1        123.00\n\
价税合计（大写） 壹佰贰拾叁元整        （小写）￥123.00\n";

fn parse(i: &PdfExtraction) -> ParsedInvoice {
    let p = InvoicePatterns::new().unwrap();
    parse_one(&p, i)
}

#[test]
fn extraction_error_is_reported() {
    let inv = parse(&input("/a/x.pdf", Err("pdftotext.exe 未找到")));
    assert!(!inv.is_invoice_pdf);
    assert_eq!(inv.error.as_deref(), Some("pdftotext.exe 未找到"));
    assert_eq!(inv.debug_text, "");
    assert_eq!(inv.file, "/a/x.pdf");
    assert_eq!(inv.file_name, "x.pdf");
    assert_eq!(inv.owner, "张三");
}

#[test]
fn blank_output_is_an_error() {
    let inv = parse(&input("/a/x.pdf", Ok(" \n\t ")));
    assert_eq!(inv.error.as_deref(), Some("pdftotext输出为空"));
    assert!(!inv.is_invoice_pdf);
}

#[test]
fn text_without_invoice_features_is_skipped() {
    let inv = parse(&input("/a/r.pdf", Ok("收 据\n金额 100")));
    assert!(!inv.is_invoice_pdf);
    assert_eq!(inv.error.as_deref(), Some("非发票(特征不足),已跳过 [收据金额100]"));
    assert_eq!(inv.debug_text, "收 据\n金额 100");
}

#[test]
fn vat_invoice_fields() {
    let inv = parse(&input("/w/张三/a.pdf", Ok(VAT_TEXT)));
    assert!(inv.is_invoice_pdf);
    assert_eq!(inv.error, None);
    assert_eq!(inv.invoice_type, "普通发票");
    assert_eq!(inv.issue_date, "2024年03月15日");
    assert_eq!(inv.invoice_no, "24312000000012345678");
    assert_eq!(inv.amount, "123.00");
    assert_eq!(inv.buyer, "上海某某科技有限公司");
    assert_eq!(inv.project_name, "*餐饮服务*餐饮费");
    assert_eq!(inv.category, "");
    let (text, _) = extract_text(&Ok(VAT_TEXT.to_string()));
    let first: String = text.chars().take(200).collect();
    assert_eq!(inv.debug_text, first);
    assert_eq!(inv.file_name, "a.pdf");
}

#[test]
fn buyer_falls_back_to_file_name() {
    let text = "发票号码：24312000000012345678 开票日期：2024年03月15日 （小写）¥5.00";
    let inv = parse(&input("/w/dzfp_1_杭州某某公司_20240315.pdf", Ok(text)));
    assert!(inv.is_invoice_pdf);
    assert_eq!(inv.buyer, "杭州某某公司");
    assert_eq!(inv.amount, "5.00");
}

#[test]
fn train_ticket_fields_and_kind() {
    let text = "电子发票（铁路电子客票） 发票号码：24319000000000000001\n开票日期：2024年02月01日\n\
                票价：￥553.00 购买方名称：某某有限公司   统一社会信用代码：91310000\n";
    let inv = parse(&input("/w/t.pdf", Ok(text)));
    assert!(inv.is_invoice_pdf);
    assert_eq!(inv.invoice_type, "普通发票");
    assert_eq!(inv.project_name, "*铁路电子客票*");
    assert_eq!(inv.issue_date, "2024年02月01日");
    assert_eq!(inv.invoice_no, "24319000000000000001");
    assert_eq!(inv.amount, "553.00");
    assert_eq!(inv.buyer, "某某有限公司");
}

#[test]
fn extract_text_normalises_compatibility_characters() {
    let (text, err) = extract_text(&Ok("（小写）￥１２３.００".to_string()));
    assert_eq!(err, None);
    assert_eq!(text, "(小写)¥123.00");
    let (text, err) = extract_text(&Err("boom".to_string()));
    assert_eq!(text, "");
    assert_eq!(err.as_deref(), Some("boom"));
}

#[test]
fn import_keeps_order_and_length() {
    let p = InvoicePatterns::new().unwrap();
    let inputs = vec![
        input("/a/1.pdf", Err("e1")),
        input("/a/2.pdf", Ok(VAT_TEXT)),
        input("/a/3.pdf", Ok("")),
    ];
    let out = import_invoices(&p, inputs);
    assert_eq!(out.len(), 3);
    assert_eq!(out[0].file, "/a/1.pdf");
    assert_eq!(out[0].file_name, "1.pdf");
    assert_eq!(out[1].file_name, "2.pdf");
    assert_eq!(out[2].file_name, "3.pdf");
    assert_eq!(out[0].error.as_deref(), Some("e1"));
    assert!(out[1].is_invoice_pdf);
    assert_eq!(out[2].error.as_deref(), Some("pdftotext输出为空"));
}

#[test]
fn decode_prefers_utf8_then_gbk_then_lossy() {
    assert_eq!(decode_tool_output("中文".as_bytes()), "中文");
    assert_eq!(decode_tool_output(&[0xD6, 0xD0, 0xCE, 0xC4]), "中文");
    assert_eq!(decode_tool_output(&[0x61, 0xFF]), "a\u{FFFD}");
}

#[test]
fn failure_message_trims_stderr() {
    assert_eq!(
        tool_failure_message("pdftotext", b"  Syntax Error\n"),
        "pdftotext 执行失败: Syntax Error"
    );
}

#[test]
fn first_tool_path_is_kept() {
    let mut slot = PathSlot::new();
    assert_eq!(slot.get(), None);
    set_pdftotext_path(&mut slot, "C:/p/pdftotext.exe".to_string());
    set_pdftotext_path(&mut slot, "D:/other.exe".to_string());
    assert_eq!(slot.get().as_deref(), Some("C:/p/pdftotext.exe"));
}

#[test]
fn compile_succeeds_exactly_on_accepted_patterns() {
    assert!(invoice_tool::bindings::CompiledRegex::compile(r"发票(号码|代码)").is_some());
    assert!(invoice_tool::bindings::CompiledRegex::compile(r"(unclosed").is_none());
    assert!(invoice_tool::bindings::CompiledRegex::compile(r"[z-a]").is_none());
    assert!(InvoicePatterns::new().is_some());
}

#[test]
fn debug_text_keeps_white_space_and_stops_at_200() {
    let long = format!("发票号码:12345678 {}", "ab ".repeat(100));
    let inv = parse(&input("/a/l.pdf", Ok(long.as_str())));
    let expected: String = long.chars().take(200).collect();
    assert_eq!(inv.debug_text, expected);
    assert_eq!(inv.debug_text.chars().count(), 200);
}

#[test]
fn file_name_comes_from_path() {
    let text = "电子发票（普通发票）\n发票号码：25112000000012345678\n开票日期：2025年1月2日\n\
                购 名称：甲公司  销 名称：乙公司\n*餐饮服务*餐费  1\n（小写）¥300.00\n";
    let inv = parse(&input("C:/inv/dzfp_1_丙公司.pdf", Ok(text)));
    assert_eq!(inv.file_name, "dzfp_1_丙公司.pdf");
    assert!(inv.is_invoice_pdf);
    assert!(inv.error.is_none());
    assert_eq!(inv.invoice_type, "普通发票");
    assert_eq!(inv.issue_date, "2025年01月02日");
    assert_eq!(inv.invoice_no, "25112000000012345678");
    assert_eq!(inv.amount, "300.00");
    assert_eq!(inv.buyer, "甲公司");
    assert_eq!(inv.project_name, "*餐饮服务*餐费");
    assert_eq!(parse(&input("", Err("e"))).file_name, "");
}

#[test]
fn parse_with_given_file_name_uses_it_for_the_buyer() {
    let p = InvoicePatterns::new().unwrap();
    let inv = parse_with_file_name(&p, &input("/x/y.pdf", Ok("发票号码：12345678")), "fp_1_某公司.pdf".to_string());
    assert_eq!(inv.file_name, "fp_1_某公司.pdf");
    assert_eq!(inv.buyer, "某公司");
}
