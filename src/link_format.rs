//! The formats that lists of links are written in, and how text is escaped
//! for them.
use vstd::prelude::*;
use vstd::string::{StrSliceExecFns, StringExecFns};

verus! {

/// A format for a list of links.
#[derive(Debug, Clone, Copy, PartialEq, Eq, Default, Structural)]
pub enum LinkFormat {
    #[default]
    TXT,
    RTF { picture_horizontal_line: bool },
    HTML,
    Markdown,
    Typst,
}

impl LinkFormat {
    pub fn is_html(self) -> (r: bool)
        ensures
            r == (self == LinkFormat::HTML),
    {
        matches!(self, LinkFormat::HTML)
    }

    pub fn is_rtf(self) -> (r: bool)
        ensures
            r == (self is RTF),
    {
        matches!(self, LinkFormat::RTF { .. })
    }

    /// Whether horizontal lines are drawn as pictures, which only RTF does
    /// where asked to.
    pub fn rtf_picture_horizontal_line(self) -> (r: bool)
        ensures
            r == (self matches LinkFormat::RTF { picture_horizontal_line } && picture_horizontal_line),
    {
        if let LinkFormat::RTF { picture_horizontal_line } = self {
            picture_horizontal_line
        } else {
            false
        }
    }

    pub fn is_txt(self) -> (r: bool)
        ensures
            r == (self == LinkFormat::TXT),
    {
        matches!(self, LinkFormat::TXT)
    }

    pub fn is_markdown(self) -> (r: bool)
        ensures
            r == (self == LinkFormat::Markdown),
    {
        matches!(self, LinkFormat::Markdown)
    }

    pub fn is_typst(&self) -> (r: bool)
        ensures
            r == (*self == LinkFormat::Typst),
    {
        matches!(self, LinkFormat::Typst)
    }

    /// The text that ends a line.
    pub fn line_break(self) -> (r: &'static str)
        ensures
            r@ == match self {
                LinkFormat::RTF { .. } => "\\line\n"@,
                LinkFormat::HTML => "<br />\n"@,
                _ => "\n"@,
            },
    {
        match self {
            LinkFormat::TXT | LinkFormat::Markdown => "\n",
            LinkFormat::RTF { .. } => "\\line\n",
            LinkFormat::HTML => "<br />\n",
            LinkFormat::Typst => "\n",
        }
    }
}

/// How HTML writes the character `c`.
pub open spec fn html_escape_char(c: char) -> Seq<char> {
    if c == '&' {
        "&amp;"@
    } else if c == '<' {
        "&lt;"@
    } else if c == '>' {
        "&gt;"@
    } else if c == '"' {
        "&quot;"@
    } else if c == '\'' {
        "&#39;"@
    } else {
        seq![c]
    }
}

/// `s` with each character escaped for HTML.
pub open spec fn html_escaped(s: Seq<char>) -> Seq<char>
    decreases s.len(),
{
    if s.len() == 0 {
        Seq::empty()
    } else {
        html_escaped(s.drop_last()) + html_escape_char(s.last())
    }
}

/// How a Typst string literal writes the character `c`.
pub open spec fn typst_escape_char(c: char) -> Seq<char> {
    if c == '\\' {
        "\\\\"@
    } else if c == '"' {
        "\\\""@
    } else if c == '\n' {
        "\\n"@
    } else if c == '\r' {
        "\\r"@
    } else if c == '\t' {
        "\\t"@
    } else {
        seq![c]
    }
}

/// `s` with each character escaped for a Typst string literal.
pub open spec fn typst_escaped(s: Seq<char>) -> Seq<char>
    decreases s.len(),
{
    if s.len() == 0 {
        Seq::empty()
    } else {
        typst_escaped(s.drop_last()) + typst_escape_char(s.last())
    }
}

/// Escapes the characters that HTML text cannot hold as they are.
pub fn html_escaped_text(text: &str) -> (r: String)
    ensures
        r@ == html_escaped(text@),
{
    let n = text.unicode_len();
    let mut out = String::new();
    let mut i: usize = 0;
    while i < n
        invariant
            i <= n,
            n == text@.len(),
            out@ == html_escaped(text@.subrange(0, i as int)),
        decreases n - i,
    {
        let c = text.get_char(i);
        if c == '&' {
            out.append("&amp;");
        } else if c == '<' {
            out.append("&lt;");
        } else if c == '>' {
            out.append("&gt;");
        } else if c == '"' {
            out.append("&quot;");
        } else if c == '\'' {
            out.append("&#39;");
        } else {
            out.append(text.substring_char(i, i + 1));
        }
        proof {
            assert(text@.subrange(0, i + 1).drop_last() =~= text@.subrange(0, i as int));
            assert(text@.subrange(i as int, i + 1) =~= seq![c]);
        }
        i = i + 1;
    }
    assert(text@.subrange(0, n as int) =~= text@);
    out
}

/// Escapes the characters that a Typst string literal cannot hold as they
/// are.
pub fn typst_escaped_text(text: &str) -> (r: String)
    ensures
        r@ == typst_escaped(text@),
{
    let n = text.unicode_len();
    let mut out = String::new();
    let mut i: usize = 0;
    while i < n
        invariant
            i <= n,
            n == text@.len(),
            out@ == typst_escaped(text@.subrange(0, i as int)),
        decreases n - i,
    {
        let c = text.get_char(i);
        if c == '\\' {
            out.append("\\\\");
        } else if c == '"' {
            out.append("\\\"");
        } else if c == '\n' {
            out.append("\\n");
        } else if c == '\r' {
            out.append("\\r");
        } else if c == '\t' {
            out.append("\\t");
        } else {
            out.append(text.substring_char(i, i + 1));
        }
        proof {
            assert(text@.subrange(0, i + 1).drop_last() =~= text@.subrange(0, i as int));
            assert(text@.subrange(i as int, i + 1) =~= seq![c]);
        }
        i = i + 1;
    }
    assert(text@.subrange(0, n as int) =~= text@);
    out
}

/// A horizontal line in HTML.
pub fn html_horizontal_line() -> (r: &'static str)
    ensures
        r@ == "<hr />"@,
{
    "<hr />"
}

/// Which extension's tab tree data to use.
#[derive(Debug, Copy, Clone, PartialEq, Eq, PartialOrd, Ord, Structural)]
pub enum TreeData {
    /// Tree Style Tab's data.
    TST,
    /// Sidebery's data.
    Sidebery,
    /// No tree data.
    NoData,
}

/// Where tab tree data is loaded from.
#[derive(Debug, Clone, Copy, PartialEq, Eq, PartialOrd, Ord, Structural)]
pub enum TreeDataSource {
    /// The Tree Style Tab web extension's data.
    TstWebExtension,
    /// The data of the Tree Style Tab addon from before Firefox had web
    /// extensions.
    TstLegacy,
    /// Sidebery's data.
    Sidebery,
}

/// The sources of one choice of tree data, in the order they are tried.
pub open spec fn sources_of(t: TreeData) -> Seq<TreeDataSource> {
    match t {
        TreeData::TST => seq![TreeDataSource::TstWebExtension, TreeDataSource::TstLegacy],
        TreeData::Sidebery => seq![TreeDataSource::Sidebery],
        TreeData::NoData => Seq::empty(),
    }
}

/// The sources of each choice in `wanted`, one after the other.
pub open spec fn all_sources_of(wanted: Seq<TreeData>) -> Seq<TreeDataSource>
    decreases wanted.len(),
{
    if wanted.len() == 0 {
        Seq::empty()
    } else {
        all_sources_of(wanted.drop_last()) + sources_of(wanted.last())
    }
}

impl TreeData {
    /// The sources to load the wanted tree data from.
    pub fn to_tree_sources(wanted: &[TreeData]) -> (r: Vec<TreeDataSource>)
        ensures
            r@ == all_sources_of(wanted@),
    {
        let mut out: Vec<TreeDataSource> = Vec::new();
        let mut i: usize = 0;
        while i < wanted.len()
            invariant
                i <= wanted@.len(),
                out@ == all_sources_of(wanted@.subrange(0, i as int)),
            decreases wanted@.len() - i,
        {
            let ghost before = out@;
            match wanted[i] {
                TreeData::TST => {
                    out.push(TreeDataSource::TstWebExtension);
                    out.push(TreeDataSource::TstLegacy);
                },
                TreeData::Sidebery => {
                    out.push(TreeDataSource::Sidebery);
                },
                TreeData::NoData => {},
            }
            proof {
                assert(wanted@.subrange(0, i + 1).drop_last() =~= wanted@.subrange(0, i as int));
                assert(out@ =~= before + sources_of(wanted@[i as int]));
            }
            i = i + 1;
        }
        assert(wanted@.subrange(0, wanted@.len() as int) =~= wanted@);
        out
    }
}

} // verus!
