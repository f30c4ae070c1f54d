//! The output formats that tabs can be written to as links, and how each
//! maps to a link format and, for PDF output, a conversion method.
use vstd::prelude::*;

use crate::group_tab::same_text;
use crate::link_format::{LinkFormat, TreeDataSource};

verus! {

/// The mode of the .NET Framework iText PDF converter.
#[derive(Debug, Clone, PartialEq, Eq)]
pub enum DotNetFrameworkItextMode {
    /// The older PDF implementation, with an optional text that breaks pages.
    PdfLegacy { custom_page_break: Option<String> },
    /// The XML implementation in its simpler mode.
    PdfXmlSimple,
    /// The XML implementation in its advanced mode.
    PdfXmlAdv,
}

/// How an HTML or Typst document is converted to PDF.
#[derive(Debug, Clone, PartialEq, Eq)]
pub enum PdfConversionMethod {
    DotNetItextFramework { mode: DotNetFrameworkItextMode },
    DotNetItext,
    Wkhtml { shelled: bool },
    Chromiumoxide,
    Typst,
}

/// An output format that can be asked for.
#[allow(non_camel_case_types)]
#[derive(Debug, Clone, Copy, PartialEq, Eq, Structural)]
pub enum Format {
    TEXT,
    RTF,
    RTF_SIMPLE,
    HTML,
    MARKDOWN,
    TYPST,
    PDF_TYPST,
    PDF_MODERN,
    PDF_LEGACY,
    PDF_XML_SIMPLE,
    PDF_XML_ADV,
    PDF_WK_HTML_LINKED,
    PDF_CHROMIUM_OXIDE,
}

/// The name of a format on the command line.
pub open spec fn format_name(f: Format) -> Seq<char> {
    match f {
        Format::TEXT => "text"@,
        Format::RTF => "rtf"@,
        Format::RTF_SIMPLE => "rtf-simple"@,
        Format::HTML => "html"@,
        Format::MARKDOWN => "markdown"@,
        Format::TYPST => "typst"@,
        Format::PDF_TYPST => "pdf-typst"@,
        Format::PDF_MODERN => "pdf-modern"@,
        Format::PDF_LEGACY => "pdf-legacy"@,
        Format::PDF_XML_SIMPLE => "pdf-xml-simple"@,
        Format::PDF_XML_ADV => "pdf-xml-adv"@,
        Format::PDF_WK_HTML_LINKED => "pdf-wk-html-linked"@,
        Format::PDF_CHROMIUM_OXIDE => "pdf-chromium-oxide"@,
    }
}

/// The format that a name stands for: each format's own name, and the
/// aliases `pdf` for Typst's PDF and `pdf-wk-html` for the linked wkhtml PDF.
pub open spec fn format_of_name(s: Seq<char>) -> Option<Format> {
    if s == "text"@ {
        Some(Format::TEXT)
    } else if s == "rtf"@ {
        Some(Format::RTF)
    } else if s == "rtf-simple"@ {
        Some(Format::RTF_SIMPLE)
    } else if s == "html"@ {
        Some(Format::HTML)
    } else if s == "pdf"@ {
        Some(Format::PDF_TYPST)
    } else if s == "markdown"@ {
        Some(Format::MARKDOWN)
    } else if s == "typst"@ {
        Some(Format::TYPST)
    } else if s == "pdf-typst"@ {
        Some(Format::PDF_TYPST)
    } else if s == "pdf-modern"@ {
        Some(Format::PDF_MODERN)
    } else if s == "pdf-legacy"@ {
        Some(Format::PDF_LEGACY)
    } else if s == "pdf-xml-simple"@ {
        Some(Format::PDF_XML_SIMPLE)
    } else if s == "pdf-xml-adv"@ {
        Some(Format::PDF_XML_ADV)
    } else if s == "pdf-wk-html"@ {
        Some(Format::PDF_WK_HTML_LINKED)
    } else if s == "pdf-wk-html-linked"@ {
        Some(Format::PDF_WK_HTML_LINKED)
    } else if s == "pdf-chromium-oxide"@ {
        Some(Format::PDF_CHROMIUM_OXIDE)
    } else {
        None
    }
}

impl Format {
    /// The format whose name is `s`.
    pub fn from_name(s: &str) -> (r: Option<Format>)
        ensures
            r == format_of_name(s@),
    {
        if same_text(s, "text") {
            Some(Format::TEXT)
        } else if same_text(s, "rtf") {
            Some(Format::RTF)
        } else if same_text(s, "rtf-simple") {
            Some(Format::RTF_SIMPLE)
        } else if same_text(s, "html") {
            Some(Format::HTML)
        } else if same_text(s, "pdf") {
            Some(Format::PDF_TYPST)
        } else if same_text(s, "markdown") {
            Some(Format::MARKDOWN)
        } else if same_text(s, "typst") {
            Some(Format::TYPST)
        } else if same_text(s, "pdf-typst") {
            Some(Format::PDF_TYPST)
        } else if same_text(s, "pdf-modern") {
            Some(Format::PDF_MODERN)
        } else if same_text(s, "pdf-legacy") {
            Some(Format::PDF_LEGACY)
        } else if same_text(s, "pdf-xml-simple") {
            Some(Format::PDF_XML_SIMPLE)
        } else if same_text(s, "pdf-xml-adv") {
            Some(Format::PDF_XML_ADV)
        } else if same_text(s, "pdf-wk-html") {
            Some(Format::PDF_WK_HTML_LINKED)
        } else if same_text(s, "pdf-wk-html-linked") {
            Some(Format::PDF_WK_HTML_LINKED)
        } else if same_text(s, "pdf-chromium-oxide") {
            Some(Format::PDF_CHROMIUM_OXIDE)
        } else {
            None
        }
    }

    /// The name of this format on the command line.
    pub fn name(self) -> (r: &'static str)
        ensures
            r@ == format_name(self),
    {
        match self {
            Format::TEXT => "text",
            Format::RTF => "rtf",
            Format::RTF_SIMPLE => "rtf-simple",
            Format::HTML => "html",
            Format::MARKDOWN => "markdown",
            Format::TYPST => "typst",
            Format::PDF_TYPST => "pdf-typst",
            Format::PDF_MODERN => "pdf-modern",
            Format::PDF_LEGACY => "pdf-legacy",
            Format::PDF_XML_SIMPLE => "pdf-xml-simple",
            Format::PDF_XML_ADV => "pdf-xml-adv",
            Format::PDF_WK_HTML_LINKED => "pdf-wk-html-linked",
            Format::PDF_CHROMIUM_OXIDE => "pdf-chromium-oxide",
        }
    }

    /// The link format to write, and the conversion to PDF where the format
    /// is a PDF one.
    pub fn to_link_format(self) -> (r: (LinkFormat, Option<PdfConversionMethod>))
        ensures
            r.0 == match self {
                Format::TEXT => LinkFormat::TXT,
                Format::RTF => LinkFormat::RTF { picture_horizontal_line: true },
                Format::RTF_SIMPLE => LinkFormat::RTF { picture_horizontal_line: false },
                Format::MARKDOWN => LinkFormat::Markdown,
                Format::TYPST | Format::PDF_TYPST => LinkFormat::Typst,
                _ => LinkFormat::HTML,
            },
            r.1 == match self {
                Format::PDF_TYPST => Some(PdfConversionMethod::Typst),
                Format::PDF_LEGACY => Some(
                    PdfConversionMethod::DotNetItextFramework {
                        mode: DotNetFrameworkItextMode::PdfLegacy { custom_page_break: None },
                    },
                ),
                Format::PDF_XML_SIMPLE => Some(
                    PdfConversionMethod::DotNetItextFramework {
                        mode: DotNetFrameworkItextMode::PdfXmlSimple,
                    },
                ),
                Format::PDF_XML_ADV => Some(
                    PdfConversionMethod::DotNetItextFramework {
                        mode: DotNetFrameworkItextMode::PdfXmlAdv,
                    },
                ),
                Format::PDF_MODERN => Some(PdfConversionMethod::DotNetItext),
                Format::PDF_WK_HTML_LINKED => Some(PdfConversionMethod::Wkhtml { shelled: false }),
                Format::PDF_CHROMIUM_OXIDE => Some(PdfConversionMethod::Chromiumoxide),
                _ => None,
            },
    {
        match self {
            Format::TEXT => (LinkFormat::TXT, None),
            Format::RTF => (LinkFormat::RTF { picture_horizontal_line: true }, None),
            Format::RTF_SIMPLE => (LinkFormat::RTF { picture_horizontal_line: false }, None),
            Format::MARKDOWN => (LinkFormat::Markdown, None),
            Format::HTML => (LinkFormat::HTML, None),
            Format::TYPST => (LinkFormat::Typst, None),
            Format::PDF_TYPST => (LinkFormat::Typst, Some(PdfConversionMethod::Typst)),
            Format::PDF_LEGACY => (
                LinkFormat::HTML,
                Some(
                    PdfConversionMethod::DotNetItextFramework {
                        mode: DotNetFrameworkItextMode::PdfLegacy { custom_page_break: None },
                    },
                ),
            ),
            Format::PDF_XML_SIMPLE => (
                LinkFormat::HTML,
                Some(
                    PdfConversionMethod::DotNetItextFramework {
                        mode: DotNetFrameworkItextMode::PdfXmlSimple,
                    },
                ),
            ),
            Format::PDF_XML_ADV => (
                LinkFormat::HTML,
                Some(
                    PdfConversionMethod::DotNetItextFramework {
                        mode: DotNetFrameworkItextMode::PdfXmlAdv,
                    },
                ),
            ),
            Format::PDF_MODERN => (LinkFormat::HTML, Some(PdfConversionMethod::DotNetItext)),
            Format::PDF_WK_HTML_LINKED => (
                LinkFormat::HTML,
                Some(PdfConversionMethod::Wkhtml { shelled: false }),
            ),
            Format::PDF_CHROMIUM_OXIDE => (LinkFormat::HTML, Some(PdfConversionMethod::Chromiumoxide)),
        }
    }
}

impl core::str::FromStr for Format {
    type Err = ();

    fn from_str(s: &str) -> Result<Format, ()> {
        match Format::from_name(s) {
            Some(f) => Ok(f),
            None => Err(()),
        }
    }
}

/// Options for writing tabs as links.
#[derive(Debug, Clone, PartialEq, Eq)]
pub struct ToLinksOptions {
    pub format: LinkFormat,
    /// Break pages between the tabs of different windows, where the format
    /// can.
    pub page_breaks_after_group: bool,
    pub skip_page_break_after_last_group: bool,
    pub table_of_contents: bool,
    pub indent_all_links: bool,
    pub custom_page_break: String,
    pub tree_sources: Vec<TreeDataSource>,
}

/// What to write for an output format: the links' format, the conversion to
/// PDF if any, and the options for writing the links.
#[derive(Debug, Clone, PartialEq, Eq)]
pub struct TabsToLinksOutput {
    pub format: LinkFormat,
    pub as_pdf: Option<PdfConversionMethod>,
    pub conversion_options: ToLinksOptions,
}

impl TabsToLinksOutput {
    /// The file extension for the produced format.
    pub fn file_extension(&self) -> (r: &'static str)
        ensures
            r@ == if self.as_pdf is Some {
                "pdf"@
            } else {
                match self.format {
                    LinkFormat::TXT => "txt"@,
                    LinkFormat::RTF { .. } => "rtf"@,
                    LinkFormat::HTML => "html"@,
                    LinkFormat::Markdown => "md"@,
                    LinkFormat::Typst => "typ"@,
                }
            },
    {
        if self.as_pdf.is_some() {
            return "pdf";
        }
        match self.format {
            LinkFormat::TXT => "txt",
            LinkFormat::RTF { .. } => "rtf",
            LinkFormat::HTML => "html",
            LinkFormat::Markdown => "md",
            LinkFormat::Typst => "typ",
        }
    }
}

} // verus!
