use mozlz4::output_format::{
    DotNetFrameworkItextMode, Format, PdfConversionMethod, TabsToLinksOutput, ToLinksOptions,
};
use mozlz4::link_format::{
    html_escaped_text, html_horizontal_line, typst_escaped_text, LinkFormat, TreeData,
    TreeDataSource,
};

#[test]
fn html_escapes_markup_characters() {
    assert_eq!(
        html_escaped_text("a<b> & \"c\" 'd'"),
        "a&lt;b&gt; &amp; &quot;c&quot; &#39;d&#39;"
    );
    assert_eq!(html_escaped_text("&lt;"), "&amp;lt;");
    assert_eq!(html_escaped_text("plain é"), "plain é");
    assert_eq!(html_escaped_text(""), "");
    assert_eq!(html_horizontal_line(), "<hr />");
}

#[test]
fn typst_escapes_string_characters() {
    assert_eq!(typst_escaped_text("a\\b\"c\"\n\r\t"), "a\\\\b\\\"c\\\"\\n\\r\\t");
    assert_eq!(typst_escaped_text("x"), "x");
}

#[test]
fn link_format_queries() {
    let rtf = LinkFormat::RTF { picture_horizontal_line: true };
    assert!(rtf.is_rtf());
    assert!(rtf.rtf_picture_horizontal_line());
    assert!(!LinkFormat::RTF { picture_horizontal_line: false }.rtf_picture_horizontal_line());
    assert!(!LinkFormat::HTML.rtf_picture_horizontal_line());
    assert!(LinkFormat::HTML.is_html());
    assert!(LinkFormat::default().is_txt());
    assert!(LinkFormat::Markdown.is_markdown());
    assert!(LinkFormat::Typst.is_typst());
    assert!(!LinkFormat::Typst.is_html());
    assert_eq!(rtf.line_break(), "\\line\n");
    assert_eq!(LinkFormat::HTML.line_break(), "<br />\n");
    assert_eq!(LinkFormat::Markdown.line_break(), "\n");
}

#[test]
fn tree_data_sources() {

    let sources = TreeData::to_tree_sources(&[TreeData::Sidebery, TreeData::NoData, TreeData::TST]);
    assert_eq!(
        sources,
        vec![
            TreeDataSource::Sidebery,
            TreeDataSource::TstWebExtension,
            TreeDataSource::TstLegacy
        ]
    );
    assert!(TreeData::to_tree_sources(&[]).is_empty());
}

#[test]
fn output_formats() {
    let all = [
        Format::TEXT,
        Format::RTF,
        Format::RTF_SIMPLE,
        Format::HTML,
        Format::MARKDOWN,
        Format::TYPST,
        Format::PDF_TYPST,
        Format::PDF_MODERN,
        Format::PDF_LEGACY,
        Format::PDF_XML_SIMPLE,
        Format::PDF_XML_ADV,
        Format::PDF_WK_HTML_LINKED,
        Format::PDF_CHROMIUM_OXIDE,
    ];
    for f in all {
        assert_eq!(Format::from_name(f.name()), Some(f));
        assert_eq!(f.name().parse::<Format>(), Ok(f));
    }
    assert_eq!(Format::from_name("pdf"), Some(Format::PDF_TYPST));
    assert_eq!(Format::from_name("pdf-wk-html"), Some(Format::PDF_WK_HTML_LINKED));
    assert_eq!(Format::from_name("PDF"), None);
    assert_eq!("nope".parse::<Format>(), Err(()));

    assert_eq!(
        Format::RTF_SIMPLE.to_link_format(),
        (LinkFormat::RTF { picture_horizontal_line: false }, None)
    );
    assert_eq!(
        Format::PDF_LEGACY.to_link_format(),
        (
            LinkFormat::HTML,
            Some(PdfConversionMethod::DotNetItextFramework {
                mode: DotNetFrameworkItextMode::PdfLegacy { custom_page_break: None }
            })
        )
    );
    assert_eq!(
        Format::PDF_TYPST.to_link_format(),
        (LinkFormat::Typst, Some(PdfConversionMethod::Typst))
    );

    let output = |f: Format| {
        let (format, as_pdf) = f.to_link_format();
        TabsToLinksOutput {
            format,
            as_pdf,
            conversion_options: ToLinksOptions {
                format,
                page_breaks_after_group: false,
                skip_page_break_after_last_group: false,
                table_of_contents: true,
                indent_all_links: false,
                custom_page_break: String::new(),
                tree_sources: vec![],
            },
        }
    };
    assert_eq!(output(Format::MARKDOWN).file_extension(), "md");
    assert_eq!(output(Format::TYPST).file_extension(), "typ");
    assert_eq!(output(Format::PDF_MODERN).file_extension(), "pdf");
    assert_eq!(output(Format::TEXT).file_extension(), "txt");
    assert_eq!(output(Format::RTF).file_extension(), "rtf");
}
