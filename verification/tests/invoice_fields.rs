use invoice_tool::invoice_parser::{
    buyer_from_groups, issue_date_from_matches,
    cut_at_credit_code, date_from_compact_match, date_from_written_match, detect_invoice_type,
    extract_amount, extract_buyer, extract_buyer_from_filename, extract_invoice_no,
    extract_issue_date, extract_project_name, first_compact_date_of, group_text,
    invoice_type_for_label_exec, looks_like_invoice, loose_name_candidate_exec,
    split_name_candidate_exec, train_extract_amount, train_extract_buyer, train_extract_date,
    InvoicePatterns,
};

fn patterns() -> InvoicePatterns {
    InvoicePatterns::new().expect("patterns compile")
}

fn groups(items: &[Option<&str>]) -> Vec<Option<String>> {
    items.iter().map(|g| g.map(|s| s.to_string())).collect()
}

#[test]
fn invoice_type_from_title() {
    let p = patterns();
    assert_eq!(detect_invoice_type(&p, "电子发票(专用发票)\n发票号码"), "专用发票");
    assert_eq!(detect_invoice_type(&p, "电子发票（普通发票）"), "普通发票");
    assert_eq!(detect_invoice_type(&p, "铁路电子客票 12306"), "普通发票");
    assert_eq!(detect_invoice_type(&p, "增值税专用发票"), "专用发票");
    assert_eq!(detect_invoice_type(&p, "增值税普通发票"), "普通发票");
    assert_eq!(detect_invoice_type(&p, "收据"), "");
}

#[test]
fn invoice_type_label_mapping() {
    assert_eq!(invoice_type_for_label_exec("普通发票"), "普通发票");
    assert_eq!(invoice_type_for_label_exec("专用发票"), "专用发票");
    assert_eq!(invoice_type_for_label_exec("铁路电子客票"), "");
}

#[test]
fn issue_date_written_form() {
    let p = patterns();
    assert_eq!(extract_issue_date(&p, "开票日期: 2024 年 3 月 5 日"), "2024年03月05日");
    assert_eq!(extract_issue_date(&p, "2023年12月31日"), "2023年12月31日");
}

#[test]
fn issue_date_falls_back_to_eight_digits() {
    let p = patterns();
    // The written date has month 13, so the eight-digit form is used; the
    // first eight-digit run is out of range and is skipped.
    let text = "2024年13月01日 19991231 20240305";
    assert_eq!(extract_issue_date(&p, text), "2024年03月05日");
    assert_eq!(extract_issue_date(&p, "no date here"), "");
}

#[test]
fn date_from_match_groups() {
    let ok = groups(&[Some("2024年3月5日"), Some("2024"), Some("3"), Some("5")]);
    assert_eq!(date_from_written_match(&ok), Some("2024年03月05日".to_string()));
    let bad_day = groups(&[Some("x"), Some("2024"), Some("3"), Some("32")]);
    assert_eq!(date_from_written_match(&bad_day), None);
    let compact = groups(&[Some("20240305"), Some("2024"), Some("03"), Some("05")]);
    assert_eq!(date_from_compact_match(&compact), Some("2024年03月05日".to_string()));
    let old = groups(&[Some("20190305"), Some("2019"), Some("03"), Some("05")]);
    assert_eq!(date_from_compact_match(&old), None);
    let all = vec![old.clone(), compact.clone()];
    assert_eq!(first_compact_date_of(&all), Some("2024年03月05日".to_string()));
    assert_eq!(first_compact_date_of(&vec![old]), None);
}

#[test]
fn group_text_is_empty_for_missing_group() {
    let g = groups(&[Some("ab"), None]);
    assert_eq!(group_text(&g, 0), "ab");
    assert_eq!(group_text(&g, 1), "");
    assert_eq!(group_text(&g, 5), "");
}

#[test]
fn invoice_number_label_then_long_digits() {
    let p = patterns();
    assert_eq!(extract_invoice_no(&p, "发票号码: 24312000000012345678"), "24312000000012345678");
    assert_eq!(extract_invoice_no(&p, "票号 123456789012345678901 x"), "123456789012345678901");
    assert_eq!(extract_invoice_no(&p, "nothing"), "");
}

#[test]
fn amount_without_separators() {
    let p = patterns();
    assert_eq!(extract_amount(&p, "价税合计 (小写) ¥1,234.50"), "1234.50");
    assert_eq!(extract_amount(&p, "合计 ¥ 88.00"), "88.00");
    assert_eq!(extract_amount(&p, "合计 88"), "");
}

#[test]
fn buyer_after_purchaser_label() {
    let p = patterns();
    assert_eq!(
        extract_buyer(&p, "购 名称: 上海某某科技有限公司    销 名称: 某某餐饮有限公司"),
        "上海某某科技有限公司"
    );
}

#[test]
fn buyer_full_label_cut_at_credit_code() {
    let p = patterns();
    assert_eq!(
        extract_buyer(&p, "购买方名称: 北京某某有限公司 统一社会信用代码: 91110000"),
        "北京某某有限公司"
    );
    assert_eq!(cut_at_credit_code("甲公司  统一社会信用代码 1"), "甲公司");
    assert_eq!(cut_at_credit_code("乙公司"), "乙公司");
}

#[test]
fn buyer_split_label_and_loose_fallback() {
    let p = patterns();
    assert_eq!(extract_buyer(&p, "买 名称: 杭州某某有限公司   卖方"), "杭州某某有限公司");
    assert_eq!(extract_buyer(&p, "买 名称: 杭州某某有限公司 售 名称: 乙"), "杭州某某有限公司");
    assert_eq!(split_name_candidate_exec(" 售 名称: 乙 "), None);
    assert_eq!(split_name_candidate_exec(" 甲 "), Some("甲".to_string()));
    assert_eq!(loose_name_candidate_exec("  "), None);
    assert_eq!(loose_name_candidate_exec("售方"), None);
    assert_eq!(loose_name_candidate_exec(" 丙 "), Some("丙".to_string()));
}

#[test]
fn buyer_bare_label() {
    let p = patterns();
    assert_eq!(extract_buyer(&p, "名称: 甲公司 名称: 乙公司"), "甲公司");
    assert_eq!(extract_buyer(&p, "无"), "");
}

#[test]
fn buyer_from_file_name() {
    assert_eq!(extract_buyer_from_filename("dzfp_24312000000012345678_上海某某公司_20240305193919.pdf"), "上海某某公司");
    assert_eq!(extract_buyer_from_filename("fp_123_某公司.pdf"), "某公司");
    assert_eq!(extract_buyer_from_filename("fp_123_company.pdf"), "");
    assert_eq!(extract_buyer_from_filename("发票.pdf"), "");
    assert_eq!(extract_buyer_from_filename("dzfp_20345678_北京公司.pdf"), "北京公司");
    assert_eq!(extract_buyer_from_filename("dzfp_20345678_北京公司_2026.pdf"), "北京公司");
    assert_eq!(extract_buyer_from_filename("dzfp_1_北京公司_20a.pdf"), "");
}

#[test]
fn project_name_at_line_start() {
    let p = patterns();
    assert_eq!(extract_project_name(&p, "项目\n  *餐饮服务*餐饮费  1  100.00\n"), "*餐饮服务*餐饮费");
    assert_eq!(extract_project_name(&p, "x *a*b"), "");
}

#[test]
fn invoice_look() {
    let p = patterns();
    assert!(looks_like_invoice(&p, "发票代码 1"));
    assert!(looks_like_invoice(&p, "号 12345678901234567890"));
    assert!(!looks_like_invoice(&p, "hello 123"));
}

#[test]
fn train_ticket_fields() {
    let p = patterns();
    let text = "开票日期: 2024年01月02日 乘车 2024年01月05日 票价: ¥350.50 购买方名称: 某某有限公司   统一社会信用代码: 9131";
    assert_eq!(train_extract_date(&p, text), "2024年01月02日");
    assert_eq!(train_extract_amount(&p, text), "350.50");
    assert_eq!(train_extract_buyer(&p, text), "某某有限公司");
    assert_eq!(train_extract_date(&p, "乘车 2024年01月05日"), "2024年01月05日");
    assert_eq!(train_extract_amount(&p, "¥ 12.00"), "12.00");
    assert_eq!(train_extract_buyer(&p, "名称: 甲 名称: 乙"), "甲");
}

fn some(s: &str) -> Option<String> {
    Some(s.to_string())
}

#[test]
fn buyer_fallback_order_on_given_groups() {
    assert_eq!(buyer_from_groups(some(" 甲 "), some("乙"), None, None, None), "甲");
    assert_eq!(buyer_from_groups(None, some("乙 统一社会信用代码 9"), None, None, None), "乙");
    assert_eq!(buyer_from_groups(None, None, some("售 名称: 丁"), some("丙"), some("戊")), "丙");
    assert_eq!(buyer_from_groups(None, None, some("售方"), some("售方"), some(" 戊 ")), "戊");
    assert_eq!(buyer_from_groups(None, None, None, None, None), "");
}

#[test]
fn issue_date_choice_on_given_matches() {
    let written = Some(groups(&[Some("2024年2月30日"), Some("2024"), Some("2"), Some("30")]));
    let compact = vec![groups(&[Some("20230101"), Some("2023"), Some("01"), Some("01")])];
    assert_eq!(issue_date_from_matches(&written, &compact), "2024年02月30日");
    let invalid = Some(groups(&[Some("x"), Some("2024"), Some("0"), Some("1")]));
    assert_eq!(issue_date_from_matches(&invalid, &compact), "2023年01月01日");
    assert_eq!(issue_date_from_matches(&None, &Vec::new()), "");
}
