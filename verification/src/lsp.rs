//! The code-intelligence collaborator's data model and its pure logic:
//! the crude per-language diagnostics, the static completion lists, and the
//! tables naming the external language servers and formatters. Spawning and
//! probing those processes is the host's business.

use vstd::prelude::*;
use vstd::string::StrSliceExecFns;
use vstd::string::StringSliceAdditionalSpecFns;
use crate::text::{
    bytes_eq, contains, contains_seq, has_prefix, is_space, lines_of, match_at, split_lines, trim,
    trimmed,
};

verus! {

/// One finding of the crude syntax checks.
pub struct Diagnostic {
    /// Zero-based line index.
    pub line: usize,
    pub column: u32,
    pub message: String,
    pub severity: String,
}

/// The mathematical value of a [`Diagnostic`].
#[verifier::ext_equal]
pub ghost struct DiagnosticView {
    pub line: int,
    pub column: int,
    pub message: Seq<char>,
    pub severity: Seq<char>,
}

impl View for Diagnostic {
    type V = DiagnosticView;

    open spec fn view(&self) -> DiagnosticView {
        DiagnosticView {
            line: self.line as int,
            column: self.column as int,
            message: self.message@,
            severity: self.severity@,
        }
    }
}

/// The view of an optional string.
pub open spec fn opt_str(o: Option<String>) -> Option<Seq<char>> {
    match o {
        Some(s) => Some(s@),
        None => None,
    }
}

/// One entry of a completion list.
pub struct CompletionItem {
    pub label: String,
    pub kind: String,
    pub detail: Option<String>,
    pub documentation: Option<String>,
}

/// The mathematical value of a [`CompletionItem`].
#[verifier::ext_equal]
pub ghost struct CompletionItemView {
    pub label: Seq<char>,
    pub kind: Seq<char>,
    pub detail: Option<Seq<char>>,
    pub documentation: Option<Seq<char>>,
}

impl View for CompletionItem {
    type V = CompletionItemView;

    open spec fn view(&self) -> CompletionItemView {
        CompletionItemView {
            label: self.label@,
            kind: self.kind@,
            detail: opt_str(self.detail),
            documentation: opt_str(self.documentation),
        }
    }
}

/// A position in a document, by line and column.
pub struct Position {
    pub line: u32,
    pub character: u32,
}

/// A place in a file on disk.
pub struct Location {
    pub file_path: String,
    pub line: u32,
    pub column: u32,
}

/// Whether the crude Rust check flags a line: a function header that is
/// neither opened nor closed on its own line.
pub open spec fn rust_line_flagged(l: Seq<u8>) -> bool {
    contains_seq(l, "fn ".spec_bytes()) && !contains_seq(l, "{".spec_bytes()) && !contains_seq(
        l,
        ";".spec_bytes(),
    )
}

/// Whether the crude JavaScript check flags a line: a console log call.
pub open spec fn js_line_flagged(l: Seq<u8>) -> bool {
    contains_seq(trimmed(l), "console.log".spec_bytes())
}

/// Whether the crude Python check flags a line: a print call at its start.
pub open spec fn py_line_flagged(l: Seq<u8>) -> bool {
    match_at(trimmed(l), "print(".spec_bytes(), 0)
}

/// The findings over the first `n` lines, one per flagged line, in line
/// order.
pub open spec fn findings(
    lines: Seq<Seq<u8>>,
    n: int,
    flag: spec_fn(Seq<u8>) -> bool,
    message: Seq<char>,
    severity: Seq<char>,
) -> Seq<DiagnosticView>
    decreases n,
{
    if n <= 0 {
        Seq::<DiagnosticView>::empty()
    } else {
        findings(lines, n - 1, flag, message, severity) + if 0 <= n - 1 < lines.len() && flag(
            lines[n - 1],
        ) {
            seq![DiagnosticView { line: n - 1, column: 0, message, severity }]
        } else {
            Seq::<DiagnosticView>::empty()
        }
    }
}

/// All findings of the crude syntax checks for `language` over `content`.
pub open spec fn diagnostics_for(content: Seq<u8>, language: Seq<u8>) -> Seq<DiagnosticView> {
    let lines = lines_of(content);
    if language == "rust".spec_bytes() {
        findings(
            lines,
            lines.len() as int,
            |l: Seq<u8>| rust_line_flagged(l),
            "Function declaration may be incomplete"@,
            "warning"@,
        )
    } else if language == "javascript".spec_bytes() || language == "typescript".spec_bytes() {
        findings(
            lines,
            lines.len() as int,
            |l: Seq<u8>| js_line_flagged(l),
            "Consider using a proper logging library"@,
            "info"@,
        )
    } else if language == "python".spec_bytes() {
        findings(
            lines,
            lines.len() as int,
            |l: Seq<u8>| py_line_flagged(l),
            "Consider using logging instead of print"@,
            "info"@,
        )
    } else {
        Seq::<DiagnosticView>::empty()
    }
}

fn collect_findings(
    lines: &Vec<Vec<u8>>,
    language_kind: u8,
    message: &str,
    severity: &str,
) -> (r: Vec<Diagnostic>)
    requires
        1 <= language_kind <= 3,
    ensures
        r@.map_values(|d: Diagnostic| d@) == findings(
            lines@.map_values(|l: Vec<u8>| l@),
            lines@.len() as int,
            if language_kind == 1 {
                |l: Seq<u8>| rust_line_flagged(l)
            } else if language_kind == 2 {
                |l: Seq<u8>| js_line_flagged(l)
            } else {
                |l: Seq<u8>| py_line_flagged(l)
            },
            message@,
            severity@,
        ),
{
    let ghost lv = lines@.map_values(|l: Vec<u8>| l@);
    let ghost flag = if language_kind == 1 {
        |l: Seq<u8>| rust_line_flagged(l)
    } else if language_kind == 2 {
        |l: Seq<u8>| js_line_flagged(l)
    } else {
        |l: Seq<u8>| py_line_flagged(l)
    };
    let mut r: Vec<Diagnostic> = Vec::new();
    let mut i: usize = 0;
    proof {
        assert(r@.map_values(|d: Diagnostic| d@) =~= findings(lv, 0, flag, message@, severity@));
    }
    while i < lines.len()
        invariant
            i <= lines@.len(),
            lv == lines@.map_values(|l: Vec<u8>| l@),
            1 <= language_kind <= 3,
            flag == (if language_kind == 1 {
                |l: Seq<u8>| rust_line_flagged(l)
            } else if language_kind == 2 {
                |l: Seq<u8>| js_line_flagged(l)
            } else {
                |l: Seq<u8>| py_line_flagged(l)
            }),
            r@.map_values(|d: Diagnostic| d@) == findings(lv, i as int, flag, message@, severity@),
        decreases lines.len() - i,
    {
        let line = &lines[i];
        let hit: bool;
        if language_kind == 1 {
            hit = contains(line, &"fn ".as_bytes_vec()) && !contains(line, &"{".as_bytes_vec())
                && !contains(line, &";".as_bytes_vec());
        } else if language_kind == 2 {
            let t = trim(line);
            hit = contains(&t, &"console.log".as_bytes_vec());
        } else {
            let t = trim(line);
            hit = has_prefix(&t, &"print(".as_bytes_vec());
        }
        proof {
            assert(hit == flag(lv[i as int]));
        }
        if hit {
            let d = Diagnostic {
                line: i,
                column: 0,
                message: message.to_owned(),
                severity: severity.to_owned(),
            };
            r.push(d);
        }
        proof {
            assert(r@.map_values(|d: Diagnostic| d@) =~= findings(
                lv,
                i + 1,
                flag,
                message@,
                severity@,
            ));
        }
        i += 1;
    }
    r
}

/// The crude per-language syntax checks: one finding per flagged line, in
/// line order; unknown languages get none.
pub fn get_diagnostics(content: &Vec<u8>, language: &Vec<u8>) -> (r: Vec<Diagnostic>)
    ensures
        r@.map_values(|d: Diagnostic| d@) == diagnostics_for(content@, language@),
{
    let lines = split_lines(content);
    if bytes_eq(language, &"rust".as_bytes_vec()) {
        collect_findings(&lines, 1, "Function declaration may be incomplete", "warning")
    } else if bytes_eq(language, &"javascript".as_bytes_vec()) || bytes_eq(
        language,
        &"typescript".as_bytes_vec(),
    ) {
        collect_findings(&lines, 2, "Consider using a proper logging library", "info")
    } else if bytes_eq(language, &"python".as_bytes_vec()) {
        collect_findings(&lines, 3, "Consider using logging instead of print", "info")
    } else {
        Vec::new()
    }
}

/// One completion entry, in spec form.
pub open spec fn item(
    label: Seq<char>,
    kind: Seq<char>,
    detail: Option<Seq<char>>,
    documentation: Option<Seq<char>>,
) -> CompletionItemView {
    CompletionItemView { label, kind, detail, documentation }
}

/// The completion entries offered after a `std::` path in Rust.
pub open spec fn rust_std_items() -> Seq<CompletionItemView> {
    seq![
        item(
            "std::collections"@,
            "module"@,
            Some("Collections module"@),
            Some("Standard library collections"@),
        ),
        item("std::fs"@, "module"@, Some("File system module"@), Some("File system operations"@)),
        item("std::io"@, "module"@, Some("IO module"@), Some("Input/output operations"@)),
    ]
}

/// The keyword entries offered at the start of a Rust token.
pub open spec fn rust_keyword_items() -> Seq<CompletionItemView> {
    seq![
        item("fn"@, "keyword"@, Some("Function definition"@), None),
        item("let"@, "keyword"@, Some("Variable binding"@), None),
        item("pub"@, "keyword"@, Some("Public visibility"@), None),
    ]
}

/// The console method entries offered after `console.` in JavaScript.
pub open spec fn js_console_items() -> Seq<CompletionItemView> {
    seq![
        item(
            "console.log"@,
            "method"@,
            Some("Log to console"@),
            Some("Outputs a message to the console"@),
        ),
        item(
            "console.error"@,
            "method"@,
            Some("Log error to console"@),
            Some("Outputs an error message to the console"@),
        ),
        item(
            "console.warn"@,
            "method"@,
            Some("Log warning to console"@),
            Some("Outputs a warning message to the console"@),
        ),
    ]
}

/// The keyword entries always offered for JavaScript.
pub open spec fn js_keyword_items() -> Seq<CompletionItemView> {
    seq![
        item("function"@, "keyword"@, Some("Function declaration"@), None),
        item("const"@, "keyword"@, Some("Constant declaration"@), None),
        item("let"@, "keyword"@, Some("Variable declaration"@), None),
    ]
}

/// The import entries offered after `import ` in Python.
pub open spec fn py_import_items() -> Seq<CompletionItemView> {
    seq![
        item("import os"@, "module"@, Some("Operating system interface"@), None),
        item("import sys"@, "module"@, Some("System-specific parameters"@), None),
        item("import json"@, "module"@, Some("JSON encoder and decoder"@), None),
    ]
}

/// The keyword entries always offered for Python.
pub open spec fn py_keyword_items() -> Seq<CompletionItemView> {
    seq![
        item("def"@, "keyword"@, Some("Function definition"@), None),
        item("class"@, "keyword"@, Some("Class definition"@), None),
        item("import"@, "keyword"@, Some("Import module"@), None),
    ]
}

/// The line prefix completions are computed against: the current line up to
/// the cursor column, or the whole line when the column lies past its end.
pub open spec fn completion_prefix(current: Seq<u8>, character: int) -> Seq<u8> {
    if 0 <= character <= current.len() {
        current.subrange(0, character)
    } else {
        current
    }
}

/// The completion list for a cursor position: nothing when the line index
/// lies past the end, else the static per-language lists, gated on what the
/// line prefix contains.
pub open spec fn completions_for(
    content: Seq<u8>,
    line: int,
    character: int,
    language: Seq<u8>,
) -> Seq<CompletionItemView> {
    let lines = lines_of(content);
    if line >= lines.len() {
        Seq::<CompletionItemView>::empty()
    } else {
        let prefix = completion_prefix(lines[line], character);
        if language == "rust".spec_bytes() {
            (if contains_seq(prefix, "std::".spec_bytes()) {
                rust_std_items()
            } else {
                Seq::<CompletionItemView>::empty()
            }) + (if trimmed(prefix).len() == 0 || (prefix.len() > 0 && is_space(prefix.last())) {
                rust_keyword_items()
            } else {
                Seq::<CompletionItemView>::empty()
            })
        } else if language == "javascript".spec_bytes() || language == "typescript".spec_bytes() {
            (if contains_seq(prefix, "console.".spec_bytes()) {
                js_console_items()
            } else {
                Seq::<CompletionItemView>::empty()
            }) + js_keyword_items()
        } else if language == "python".spec_bytes() {
            (if contains_seq(prefix, "import ".spec_bytes()) {
                py_import_items()
            } else {
                Seq::<CompletionItemView>::empty()
            }) + py_keyword_items()
        } else {
            Seq::<CompletionItemView>::empty()
        }
    }
}

fn push_item(r: &mut Vec<CompletionItem>, label: &str, kind: &str, detail: Option<&str>, documentation: Option<&str>)
    ensures
        final(r)@.map_values(|it: CompletionItem| it@) == old(r)@.map_values(|it: CompletionItem| it@).push(
            item(
                label@,
                kind@,
                match detail {
                    Some(d) => Some(d@),
                    None => None,
                },
                match documentation {
                    Some(d) => Some(d@),
                    None => None,
                },
            ),
        ),
{
    let ghost prev = r@;
    let it = CompletionItem {
        label: label.to_owned(),
        kind: kind.to_owned(),
        detail: match detail {
            Some(d) => Some(d.to_owned()),
            None => None,
        },
        documentation: match documentation {
            Some(d) => Some(d.to_owned()),
            None => None,
        },
    };
    r.push(it);
    proof {
        assert(r@.map_values(|x: CompletionItem| x@) =~= prev.map_values(
            |x: CompletionItem| x@,
        ).push(
            item(
                label@,
                kind@,
                match detail {
                    Some(d) => Some(d@),
                    None => None,
                },
                match documentation {
                    Some(d) => Some(d@),
                    None => None,
                },
            ),
        ));
    }
}

/// The static per-language completion list for the cursor position given by
/// `position` (line and column, both zero-based).
pub fn get_completions(content: &Vec<u8>, position: &Position, language: &Vec<u8>) -> (r: Vec<
    CompletionItem,
>)
    ensures
        r@.map_values(|it: CompletionItem| it@) == completions_for(
            content@,
            position.line as int,
            position.character as int,
            language@,
        ),
{
    let lines = split_lines(content);
    let mut r: Vec<CompletionItem> = Vec::new();
    let line_idx = position.line as usize;
    if line_idx >= lines.len() {
        proof {
            assert(r@.map_values(|it: CompletionItem| it@) =~= completions_for(
                content@,
                position.line as int,
                position.character as int,
                language@,
            ));
        }
        return r;
    }
    let current = &lines[line_idx];
    let character = position.character as usize;
    let prefix = if character <= current.len() {
        crate::text::sub_bytes(current, 0, character)
    } else {
        crate::text::copy_bytes(current)
    };
    proof {
        assert(lines@.map_values(|l: Vec<u8>| l@)[line_idx as int] == current@);
        assert(prefix@ == completion_prefix(current@, position.character as int));
    }
    if bytes_eq(language, &"rust".as_bytes_vec()) {
        if contains(&prefix, &"std::".as_bytes_vec()) {
            push_item(
                &mut r,
                "std::collections",
                "module",
                Some("Collections module"),
                Some("Standard library collections"),
            );
            push_item(
                &mut r,
                "std::fs",
                "module",
                Some("File system module"),
                Some("File system operations"),
            );
            push_item(&mut r, "std::io", "module", Some("IO module"), Some("Input/output operations"));
        }
        let t = trim(&prefix);
        let at_token_start = t.len() == 0 || (prefix.len() > 0 && crate::text::is_space_exec(
            prefix[prefix.len() - 1],
        ));
        if at_token_start {
            push_item(&mut r, "fn", "keyword", Some("Function definition"), None);
            push_item(&mut r, "let", "keyword", Some("Variable binding"), None);
            push_item(&mut r, "pub", "keyword", Some("Public visibility"), None);
        }
    } else if bytes_eq(language, &"javascript".as_bytes_vec()) || bytes_eq(
        language,
        &"typescript".as_bytes_vec(),
    ) {
        if contains(&prefix, &"console.".as_bytes_vec()) {
            push_item(
                &mut r,
                "console.log",
                "method",
                Some("Log to console"),
                Some("Outputs a message to the console"),
            );
            push_item(
                &mut r,
                "console.error",
                "method",
                Some("Log error to console"),
                Some("Outputs an error message to the console"),
            );
            push_item(
                &mut r,
                "console.warn",
                "method",
                Some("Log warning to console"),
                Some("Outputs a warning message to the console"),
            );
        }
        push_item(&mut r, "function", "keyword", Some("Function declaration"), None);
        push_item(&mut r, "const", "keyword", Some("Constant declaration"), None);
        push_item(&mut r, "let", "keyword", Some("Variable declaration"), None);
    } else if bytes_eq(language, &"python".as_bytes_vec()) {
        if contains(&prefix, &"import ".as_bytes_vec()) {
            push_item(&mut r, "import os", "module", Some("Operating system interface"), None);
            push_item(&mut r, "import sys", "module", Some("System-specific parameters"), None);
            push_item(&mut r, "import json", "module", Some("JSON encoder and decoder"), None);
        }
        push_item(&mut r, "def", "keyword", Some("Function definition"), None);
        push_item(&mut r, "class", "keyword", Some("Class definition"), None);
        push_item(&mut r, "import", "keyword", Some("Import module"), None);
    }
    proof {
        assert(r@.map_values(|it: CompletionItem| it@) =~= completions_for(
            content@,
            position.line as int,
            position.character as int,
            language@,
        ));
    }
    r
}

/// The external language-server command for a language, when one is
/// configured.
pub fn lsp_server_command(language: &Vec<u8>) -> (r: Option<Vec<u8>>)
    ensures
        crate::text::opt_bytes(r) == server_command_of(language@),
{
    if bytes_eq(language, &"rust".as_bytes_vec()) {
        Some("rust-analyzer".as_bytes_vec())
    } else if bytes_eq(language, &"javascript".as_bytes_vec()) || bytes_eq(
        language,
        &"typescript".as_bytes_vec(),
    ) {
        Some("typescript-language-server".as_bytes_vec())
    } else if bytes_eq(language, &"python".as_bytes_vec()) {
        Some("pylsp".as_bytes_vec())
    } else if bytes_eq(language, &"go".as_bytes_vec()) {
        Some("gopls".as_bytes_vec())
    } else if bytes_eq(language, &"java".as_bytes_vec()) {
        Some("jdtls".as_bytes_vec())
    } else if bytes_eq(language, &"cpp".as_bytes_vec()) || bytes_eq(language, &"c".as_bytes_vec()) {
        Some("clangd".as_bytes_vec())
    } else {
        None
    }
}

/// The external language-server command table.
pub open spec fn server_command_of(language: Seq<u8>) -> Option<Seq<u8>> {
    if language == "rust".spec_bytes() {
        Some("rust-analyzer".spec_bytes())
    } else if language == "javascript".spec_bytes() || language == "typescript".spec_bytes() {
        Some("typescript-language-server".spec_bytes())
    } else if language == "python".spec_bytes() {
        Some("pylsp".spec_bytes())
    } else if language == "go".spec_bytes() {
        Some("gopls".spec_bytes())
    } else if language == "java".spec_bytes() {
        Some("jdtls".spec_bytes())
    } else if language == "cpp".spec_bytes() || language == "c".spec_bytes() {
        Some("clangd".spec_bytes())
    } else {
        None
    }
}

/// The external formatter command table: languages without an entry pass
/// their content through unchanged.
pub open spec fn formatter_command_of(language: Seq<u8>) -> Option<Seq<u8>> {
    if language == "rust".spec_bytes() {
        Some("rustfmt".spec_bytes())
    } else if language == "python".spec_bytes() {
        Some("black".spec_bytes())
    } else {
        None
    }
}

/// The external formatter command for a language, when one is configured.
pub fn formatter_command(language: &Vec<u8>) -> (r: Option<Vec<u8>>)
    ensures
        crate::text::opt_bytes(r) == formatter_command_of(language@),
{
    if bytes_eq(language, &"rust".as_bytes_vec()) {
        Some("rustfmt".as_bytes_vec())
    } else if bytes_eq(language, &"python".as_bytes_vec()) {
        Some("black".as_bytes_vec())
    } else {
        None
    }
}

} // verus!
