//! BSL language server helpers: document paths and `file://` URIs, the lines read from the
//! server's and Java's version output, and diagnostics as the UI shows them.
//!
//! Paths follow the conventions of the host this library is built for: `/` separates
//! components and a path is absolute when it starts with `/`.
use vstd::prelude::*;

use crate::mcp::McpTool;
use crate::models::{BSLDiagnostic, BslDiagnosticItem, Diagnostic};
use crate::text::{
    ascii_lower, chars_of, concat2, concat3, decimal, find_first, first_from, has_prefix,
    lemma_split_char_len, lines_of, map_char, owned, parse_unsigned, parse_unsigned_chars,
    replace_char, slice_chars, split_char, split_chars, split_lines, starts_with_chars,
    string_of, strip_leading, strip_leading_index, to_ascii_lower, trim, trim_chars,
    trim_start_matches_str, u64_to_decimal, has_suffix, push_str, views, seq_contains,
};
use crate::ext::{
    json_first_item_member, json_first_item_member_text, json_string_at, json_string_at_pointer,
    json_u64_at, json_u64_at_pointer,
};

verus! {

// ───────────────────────────── diagnostics for the UI ─────────────────────────────

/// Severity label of an LSP diagnostic in the analysis panel.
pub open spec fn severity_label(s: Option<i32>) -> Seq<char> {
    match s {
        Some(1) => "error"@,
        Some(2) => "warning"@,
        Some(3) => "info"@,
        _ => "hint"@,
    }
}

/// Severity label of an LSP diagnostic in the analysis panel.
pub fn lsp_severity_label(severity: Option<i32>) -> (r: String)
    ensures
        r@ == severity_label(severity),
{
    match severity {
        Some(1) => "error".to_owned(),
        Some(2) => "warning".to_owned(),
        Some(3) => "info".to_owned(),
        _ => "hint".to_owned(),
    }
}

/// A diagnostic as the analysis panel shows it: start position, message and label.
pub open spec fn panel_diagnostic(d: Diagnostic, r: BSLDiagnostic) -> bool {
    &&& r.line == d.range.start.line
    &&& r.character == d.range.start.character
    &&& r.message@ == d.message@
    &&& r.severity@ == severity_label(d.severity)
}

/// Converts the server's diagnostics for the analysis panel, one for one and in order.
pub fn diagnostics_for_panel(diagnostics: &[Diagnostic]) -> (r: Vec<BSLDiagnostic>)
    ensures
        r@.len() == diagnostics@.len(),
        forall|i: int| 0 <= i < r@.len() ==> panel_diagnostic(diagnostics@[i], #[trigger] r@[i]),
{
    let mut r: Vec<BSLDiagnostic> = Vec::new();
    let mut i: usize = 0;
    while i < diagnostics.len()
        invariant
            i <= diagnostics@.len(),
            r@.len() == i,
            forall|j: int| 0 <= j < i ==> panel_diagnostic(diagnostics@[j], #[trigger] r@[j]),
        decreases diagnostics.len() - i,
    {
        let d = &diagnostics[i];
        r.push(
            BSLDiagnostic {
                line: d.range.start.line,
                character: d.range.start.character,
                message: d.message.clone(),
                severity: lsp_severity_label(d.severity),
            },
        );
        i = i + 1;
    }
    r
}

// ───────────────────────────── paths and URIs ─────────────────────────────

/// A path is absolute when it starts at the root.
pub open spec fn is_absolute_path(p: Seq<char>) -> bool {
    p.len() > 0 && p[0] == '/'
}

/// `Path::join`: an absolute `rel` replaces `base`; otherwise one separator is put between
/// them unless `base` is empty or already ends with one.
pub open spec fn join_path(base: Seq<char>, rel: Seq<char>) -> Seq<char> {
    if is_absolute_path(rel) {
        rel
    } else if base.len() == 0 || base.last() == '/' {
        base + rel
    } else {
        base + "/"@ + rel
    }
}

/// Joins two paths (`Path::join`).
pub fn join_paths(base: &str, rel: &str) -> (r: String)
    ensures
        r@ == join_path(base@, rel@),
{
    let bv = chars_of(base);
    let rv = chars_of(rel);
    if rv.len() > 0 && rv[0] == '/' {
        owned(rel)
    } else if bv.len() == 0 || bv[bv.len() - 1] == '/' {
        concat2(base, rel)
    } else {
        concat3(base, "/", rel)
    }
}

/// Path of a document named by a tool: kept when absolute, else resolved against the
/// configuration root when there is one.
pub open spec fn resolved_file_path(file: Seq<char>, config_root: Option<Seq<char>>) -> Seq<char> {
    if is_absolute_path(file) {
        file
    } else {
        match config_root {
            Some(root) => join_path(root, file),
            None => file,
        }
    }
}

/// Resolves a document path named by a tool against the configuration root.
pub fn resolve_bsl_file_path(file: &str, config_root: Option<&str>) -> (r: String)
    ensures
        r@ == resolved_file_path(file@, match config_root {
            Some(s) => Some(s@),
            None => None,
        }),
{
    let fv = chars_of(file);
    if fv.len() > 0 && fv[0] == '/' {
        return owned(file);
    }
    match config_root {
        Some(root) => join_paths(root, file),
        None => owned(file),
    }
}

/// `file://` URI of an absolute path; backslashes become slashes and a path that does not
/// start at the root (a drive letter) gets a third slash.
pub open spec fn file_uri_of(abs_path: Seq<char>) -> Seq<char> {
    let n = map_char(abs_path, '\\', '/');
    if n.len() > 0 && n[0] == '/' {
        "file://"@ + n
    } else {
        "file:///"@ + n
    }
}

/// Converts an absolute file path to a `file://` URI.
pub fn path_to_file_uri(abs_path: &str) -> (r: String)
    ensures
        r@ == file_uri_of(abs_path@),
{
    let normalized = replace_char(abs_path, '\\', '/');
    let nv = chars_of(normalized.as_str());
    if nv.len() > 0 && nv[0] == '/' {
        concat2("file://", normalized.as_str())
    } else {
        concat2("file:///", normalized.as_str())
    }
}

/// Absolute path named by a `file://` URI: the scheme prefixes stripped (`file:///` as often
/// as it repeats, then `file://`), and the rest taken from the root.
pub open spec fn abs_path_of_uri(uri: Seq<char>) -> Seq<char> {
    "/"@ + strip_leading(strip_leading(uri, "file:///"@), "file://"@)
}

/// Converts a `file://` URI back to an absolute path.
pub fn uri_to_abs_path(uri: &str) -> (r: String)
    ensures
        r@ == abs_path_of_uri(uri@),
{
    let s1 = trim_start_matches_str(uri, "file:///");
    let s2 = trim_start_matches_str(s1.as_str(), "file://");
    concat2("/", s2.as_str())
}

/// Path shown for a URI: relative to the configuration root (leading slashes dropped) when
/// the absolute path lies under it, compared with backslashes read as slashes.
pub open spec fn display_path_of_uri(uri: Seq<char>, config_root: Option<Seq<char>>) -> Seq<char> {
    let abs = abs_path_of_uri(uri);
    match config_root {
        Some(root) => {
            let root_norm = map_char(root, '\\', '/');
            let abs_norm = map_char(abs, '\\', '/');
            if has_prefix(abs_norm, root_norm) {
                strip_leading(abs_norm.subrange(root_norm.len() as int, abs_norm.len() as int), "/"@)
            } else {
                abs
            }
        },
        None => abs,
    }
}

/// Converts a `file://` URI to the path shown to the user.
pub fn uri_to_display_path(uri: &str, config_root: Option<&str>) -> (r: String)
    ensures
        r@ == display_path_of_uri(uri@, match config_root {
            Some(s) => Some(s@),
            None => None,
        }),
{
    let abs = uri_to_abs_path(uri);
    if let Some(root) = config_root {
        let root_norm = chars_of(replace_char(root, '\\', '/').as_str());
        let abs_norm = chars_of(replace_char(abs.as_str(), '\\', '/').as_str());
        if starts_with_chars(&abs_norm, &root_norm) {
            let rest = slice_chars(&abs_norm, root_norm.len(), abs_norm.len());
            let slash = chars_of("/");
            let k = strip_leading_index(&rest, &slash);
            return string_of(&slice_chars(&rest, k, rest.len()));
        }
    }
    abs
}

// ───────────────────────────── version output ─────────────────────────────

/// The first trimmed line, from index `i` on, whose ASCII-lower-cased form starts with
/// `version:`.
pub open spec fn version_line_from(lines: Seq<Seq<char>>, i: int) -> Option<Seq<char>>
    decreases lines.len() - i,
{
    if i < 0 || i >= lines.len() {
        None
    } else if has_prefix(ascii_lower(trim(lines[i])), "version:"@) {
        Some(trim(lines[i]))
    } else {
        version_line_from(lines, i + 1)
    }
}

/// The `version:` line of the server's version output, or `version unknown`.
pub open spec fn server_version_line(output: Seq<char>) -> Seq<char> {
    match version_line_from(split_lines(output), 0) {
        Some(l) => l,
        None => "version unknown"@,
    }
}

/// Picks the `version:` line out of the server's version output (runtime warnings around it
/// are left out).
pub fn extract_server_version_line(output: &str) -> (r: String)
    ensures
        r@ == server_version_line(output@),
{
    let v = chars_of(output);
    let lines = lines_of(&v);
    let ghost ls = lines@.map_values(|l: Vec<char>| l@);
    let prefix = chars_of("version:");
    let mut i: usize = 0;
    while i < lines.len()
        invariant
            i <= lines@.len(),
            ls == split_lines(output@),
            ls == lines@.map_values(|l: Vec<char>| l@),
            prefix@ == "version:"@,
            version_line_from(ls, i as int) == version_line_from(ls, 0),
        decreases lines.len() - i,
    {
        let t = trim_chars(&lines[i]);
        let lower = to_ascii_lower(&t);
        assert(ls[i as int] == lines@[i as int]@);
        if starts_with_chars(&lower, &prefix) {
            return string_of(&t);
        }
        i = i + 1;
    }
    "version unknown".to_owned()
}

/// An MCP endpoint probed without a session answers with success or with 400.
pub fn is_expected_mcp_probe_status(status: u16) -> (b: bool)
    ensures
        b == ((200 <= status && status <= 299) || status == 400),
{
    (200 <= status && status <= 299) || status == 400
}

/// The text between the first two double quotes of a line, when it has two.
pub open spec fn quoted_part(line: Seq<char>) -> Option<Seq<char>> {
    match first_from(line, seq!['"'], 0) {
        None => None,
        Some(a) => match first_from(line, seq!['"'], a + 1) {
            None => None,
            Some(b) => Some(line.subrange(a + 1, b)),
        },
    }
}

/// Major version of a Java version string: the part after `1.` for the old `1.x` scheme,
/// else the part before the first dot.
pub open spec fn java_major_of(ver: Seq<char>) -> Option<int> {
    if has_prefix(ver, "1."@) {
        parse_unsigned(split_char(ver, '.')[1], u32::MAX as int)
    } else {
        parse_unsigned(split_char(ver, '.')[0], u32::MAX as int)
    }
}

/// Major version read from the first line, at index `i` or later, that quotes a version.
pub open spec fn java_major_from(lines: Seq<Seq<char>>, i: int) -> Option<int>
    decreases lines.len() - i,
{
    if i < 0 || i >= lines.len() {
        None
    } else {
        match quoted_part(lines[i]) {
            Some(v) => java_major_of(v),
            None => java_major_from(lines, i + 1),
        }
    }
}

/// A piece boundary `c` inside `s` gives at least two pieces.
proof fn lemma_split_char_two(s: Seq<char>, c: char, k: int)
    requires
        0 <= k < s.len(),
        s[k] == c,
    ensures
        split_char(s, c).len() >= 2,
    decreases s.len(),
{
    lemma_split_char_len(s.drop_last(), c);
    if k < s.len() - 1 {
        lemma_split_char_two(s.drop_last(), c, k);
    }
}

/// Major Java version from `java -version` output (`"17.0.2"` gives 17, `"1.8.0_392"`
/// gives 8).
pub fn parse_java_major_version(version_output: &str) -> (r: Option<u32>)
    ensures
        match r {
            Some(n) => java_major_from(split_lines(version_output@), 0) == Some(n as int),
            None => java_major_from(split_lines(version_output@), 0) is None,
        },
{
    let v = chars_of(version_output);
    let lines = lines_of(&v);
    let ghost ls = lines@.map_values(|l: Vec<char>| l@);
    let quote = chars_of("\"");
    let old_prefix = chars_of("1.");
    proof {
        reveal_strlit("\"");
        reveal_strlit("1.");
    }
    let mut i: usize = 0;
    while i < lines.len()
        invariant
            i <= lines@.len(),
            ls == split_lines(version_output@),
            ls == lines@.map_values(|l: Vec<char>| l@),
            quote@ == seq!['"'],
            old_prefix@ == "1."@,
            java_major_from(ls, i as int) == java_major_from(ls, 0),
        decreases lines.len() - i,
    {
        let line = &lines[i];
        assert(ls[i as int] == line@);
        if let Some(start) = find_first(line, &quote, 0) {
            if let Some(end) = find_first(line, &quote, start + 1) {
                let ver = slice_chars(line, start + 1, end);
                let parts = split_chars(&ver, '.');
                proof {
                    lemma_split_char_len(ver@, '.');
                    assert(parts@.map_values(|p: Vec<char>| p@)[0] == parts@[0]@);
                }
                let piece: usize = if starts_with_chars(&ver, &old_prefix) {
                    proof {
                        reveal_strlit("1.");
                        assert(ver@.subrange(0, 2)[1] == ver@[1]);
                        assert(ver@[1] == '.');
                        lemma_split_char_two(ver@, '.', 1);
                        assert(parts@.map_values(|p: Vec<char>| p@)[1] == parts@[1]@);
                    }
                    1
                } else {
                    0
                };
                let parsed = parse_unsigned_chars(&parts[piece], 0xffff_ffffu64);
                return match parsed {
                    Some(n) => Some(n as u32),
                    None => None,
                };
            }
        }
        i = i + 1;
    }
    None
}

/// First line of Java's version banner, or `unknown` when it printed nothing.
pub open spec fn java_banner_line(stderr: Seq<char>) -> Seq<char> {
    if split_lines(stderr).len() > 0 {
        split_lines(stderr)[0]
    } else {
        "unknown"@
    }
}

/// Report item for the Java runtime found at the configured path, from what `java -version`
/// printed on stderr: Java 17 or later is required.
pub open spec fn java_report_item(stderr: Seq<char>, item: BslDiagnosticItem) -> bool {
    let line = java_banner_line(stderr);
    match java_major_from(split_lines(stderr), 0) {
        Some(ver) => if ver < 17 {
            &&& item.status@ == "error"@
            &&& item.title@ == "Несовместимая версия Java"@
            &&& item.message@ == "Найдена Java "@ + decimal(ver as nat)
                + ", но требуется версия 17 или выше."@
            &&& item.suggestion matches Some(s) && s@
                == "Установите Java 17+ (например, Eclipse Temurin) или winget install EclipseAdoptium.Temurin.17.JDK"@
        } else {
            &&& item.status@ == "ok"@
            &&& item.title@ == "Java Runtime"@
            &&& item.message@ == "Найдена совместимая версия: "@ + line
            &&& item.suggestion is None
        },
        None => {
            &&& item.status@ == "warn"@
            &&& item.title@ == "Версия Java"@
            &&& item.message@ == "Java найдена ("@ + line
                + "), но не удалось определить мажорную версию."@
            &&& item.suggestion matches Some(s) && s@
                == "Убедитесь, что у вас установлена Java 17 или выше."@
        },
    }
}

/// The diagnosis item for the Java runtime, from the stderr of `java -version`.
pub fn java_runtime_report_item(stderr: &str) -> (item: BslDiagnosticItem)
    ensures
        java_report_item(stderr@, item),
{
    let v = chars_of(stderr);
    let lines = lines_of(&v);
    let version_line = if lines.len() > 0 {
        assert(lines@.map_values(|l: Vec<char>| l@)[0] == lines@[0]@);
        string_of(&lines[0])
    } else {
        "unknown".to_owned()
    };
    match parse_java_major_version(stderr) {
        Some(ver) => {
            if ver < 17 {
                let n = u64_to_decimal(ver as u64);
                BslDiagnosticItem {
                    status: "error".to_owned(),
                    title: "Несовместимая версия Java".to_owned(),
                    message: concat3(
                        "Найдена Java ",
                        n.as_str(),
                        ", но требуется версия 17 или выше.",
                    ),
                    suggestion: Some(
                        "Установите Java 17+ (например, Eclipse Temurin) или winget install EclipseAdoptium.Temurin.17.JDK".to_owned(),
                    ),
                }
            } else {
                BslDiagnosticItem {
                    status: "ok".to_owned(),
                    title: "Java Runtime".to_owned(),
                    message: concat2("Найдена совместимая версия: ", version_line.as_str()),
                    suggestion: None,
                }
            }
        },
        None => BslDiagnosticItem {
            status: "warn".to_owned(),
            title: "Версия Java".to_owned(),
            message: concat3(
                "Java найдена (",
                version_line.as_str(),
                "), но не удалось определить мажорную версию.",
            ),
            suggestion: Some("Убедитесь, что у вас установлена Java 17 или выше.".to_owned()),
        },
    }
}

/// The diagnosis item for a native server whose `version` command succeeded, from what it
/// printed.
pub fn native_server_report_item(output_text: &str) -> (item: BslDiagnosticItem)
    ensures
        item.status@ == "ok"@,
        item.title@ == "BSL Language Server"@,
        item.message@ == "Нативный сервер успешно запущен: "@ + server_version_line(output_text@),
        item.suggestion is None,
{
    let line = extract_server_version_line(output_text);
    BslDiagnosticItem {
        status: "ok".to_owned(),
        title: "BSL Language Server".to_owned(),
        message: concat2("Нативный сервер успешно запущен: ", line.as_str()),
        suggestion: None,
    }
}


// ───────────────────────────── definition context ─────────────────────────────

/// A number right-aligned in four columns (`{:4}`).
pub open spec fn pad4(d: Seq<char>) -> Seq<char> {
    if d.len() < 4 {
        Seq::new((4 - d.len()) as nat, |i: int| ' ') + d
    } else {
        d
    }
}

/// One line of a definition context: an arrow on the definition's line, the 1-based line
/// number in four columns, then the line.
pub open spec fn numbered_line(num: nat, def_line: nat, line: Seq<char>) -> Seq<char> {
    (if num == def_line {
        "→"@
    } else {
        " "@
    }) + " "@ + pad4(decimal(num)) + " | "@ + line + "\n"@
}

/// The numbered lines with indexes `start..end`.
pub open spec fn numbered_lines(lines: Seq<Seq<char>>, start: int, end: int, def_line: nat) -> Seq<char>
    decreases end - start,
{
    if end <= start {
        Seq::empty()
    } else {
        numbered_lines(lines, start, end - 1, def_line) + numbered_line(end as nat, def_line, lines[end - 1])
    }
}

/// Index of the definition's line, kept inside the file (`def_line` counts from 1).
pub open spec fn definition_index(total: nat, def_line: nat) -> int {
    let a: int = if def_line >= 1 { def_line - 1 } else { 0 };
    let b: int = if total >= 1 { total - 1 } else { 0 };
    if a < b { a } else { b }
}

/// The code around a definition: a `// path:line` header, then up to `radius` lines on each
/// side of the definition's line, numbered, with the definition's line marked.
pub open spec fn definition_context_text(lines: Seq<Seq<char>>, def_line: nat, radius: nat, display: Seq<char>) -> Seq<char> {
    let idx = definition_index(lines.len(), def_line);
    let start = if idx >= radius { idx - radius } else { 0 };
    let end = if idx + radius + 1 < lines.len() { idx + radius + 1 } else { lines.len() as int };
    "// "@ + display + ":"@ + decimal(def_line) + "\n"@ + numbered_lines(lines, start, end, def_line)
}

fn pad_left4(d: &str) -> (r: String)
    ensures
        r@ == pad4(d@),
{
    let v = chars_of(d);
    if v.len() >= 4 {
        return owned(d);
    }
    let mut r = String::new();
    let mut k = v.len();
    assert(r@ =~= Seq::new((k - v@.len()) as nat, |i: int| ' '));
    while k < 4
        invariant
            v@ == d@,
            v@.len() <= k <= 4,
            r@ == Seq::new((k - v@.len()) as nat, |i: int| ' '),
        decreases 4 - k,
    {
        let ghost before = r@;
        crate::text::push_char(&mut r, ' ');
        assert(r@ =~= Seq::new((k + 1 - v@.len()) as nat, |i: int| ' '));
        k = k + 1;
    }
    push_str(&mut r, d);
    r
}

fn push_numbered_line(out: &mut String, num: usize, def_line: usize, line: &str)
    ensures
        final(out)@ == old(out)@ + numbered_line(num as nat, def_line as nat, line@),
{
    if num == def_line {
        push_str(out, "→");
    } else {
        push_str(out, " ");
    }
    push_str(out, " ");
    let digits = u64_to_decimal(num as u64);
    push_str(out, pad_left4(digits.as_str()).as_str());
    push_str(out, " | ");
    push_str(out, line);
    push_str(out, "\n");
    assert(final(out)@ =~= old(out)@ + numbered_line(num as nat, def_line as nat, line@));
}

/// Writes the code around a definition, from the lines of its file.
pub fn definition_context(lines: &[String], def_line: usize, radius: usize, display: &str) -> (r: String)
    requires
        lines@.len() + radius < usize::MAX,
    ensures
        r@ == definition_context_text(views(lines@), def_line as nat, radius as nat, display@),
{
    let ghost ls = views(lines@);
    let total = lines.len();
    let a = if def_line >= 1 { def_line - 1 } else { 0 };
    let b = if total >= 1 { total - 1 } else { 0 };
    let idx = if a < b { a } else { b };
    let start = if idx >= radius { idx - radius } else { 0 };
    let end = if idx + radius + 1 < total { idx + radius + 1 } else { total };
    let mut out = "// ".to_owned();
    push_str(&mut out, display);
    push_str(&mut out, ":");
    push_str(&mut out, u64_to_decimal(def_line as u64).as_str());
    push_str(&mut out, "\n");
    let ghost head = out@;
    let mut j = start;
    assert(numbered_lines(ls, start as int, start as int, def_line as nat) =~= Seq::<char>::empty());
    assert(out@ =~= head + numbered_lines(ls, start as int, j as int, def_line as nat));
    while j < end
        invariant
            start <= j <= end,
            end <= total,
            total == lines@.len(),
            ls == views(lines@),
            out@ == head + numbered_lines(ls, start as int, j as int, def_line as nat),
        decreases end - j,
    {
        let ghost before = out@;
        push_numbered_line(&mut out, j + 1, def_line, lines[j].as_str());
        assert(ls[j as int] == lines@[j as int]@);
        assert(numbered_lines(ls, start as int, j + 1, def_line as nat) == numbered_lines(
            ls,
            start as int,
            j as int,
            def_line as nat,
        ) + numbered_line((j + 1) as nat, def_line as nat, ls[j as int]));
        assert(out@ =~= head + numbered_lines(ls, start as int, j + 1, def_line as nat));
        j = j + 1;
    }
    out
}

// ───────────────────────────── tool calls ─────────────────────────────

/// A call of one of the BSL language server's MCP tools, with its arguments read.
#[derive(Debug)]
pub enum BslToolCall {
    /// `check_bsl_syntax`.
    CheckSyntax { code: String },
    /// `goto_definition`, at a 0-based position of a document.
    GotoDefinition { uri: String, line: u32, character: u32, config_root: Option<String> },
    /// `resolve_definition_context`, with the number of context lines on each side.
    ResolveDefinitionContext {
        uri: String,
        line: u32,
        character: u32,
        radius: u64,
        config_root: Option<String>,
    },
}

/// The optional text of a JSON string found at a pointer.
pub open spec fn opt_seq(o: Option<String>) -> Option<Seq<char>> {
    match o {
        Some(s) => Some(s@),
        None => None,
    }
}

/// The position arguments of a navigation tool, or the error for the first one missing:
/// `file` (a string), `line` and `character` (unsigned numbers, cut to 32 bits).
pub open spec fn position_arguments(args: Seq<char>) -> Result<(Seq<char>, u32, u32), Seq<char>> {
    match json_string_at(args, "/file"@) {
        None => Err("Параметр 'file' обязателен"@),
        Some(file) => match json_u64_at(args, "/line"@) {
            None => Err("Параметр 'line' обязателен"@),
            Some(line) => match json_u64_at(args, "/character"@) {
                None => Err("Параметр 'character' обязателен"@),
                Some(ch) => Ok((file, line as u32, ch as u32)),
            },
        },
    }
}

/// The document URI a navigation tool works on: the file resolved against the configuration
/// root, as a `file://` URI.
pub open spec fn tool_document_uri(file: Seq<char>, config_root: Option<Seq<char>>) -> Seq<char> {
    file_uri_of(resolved_file_path(file, config_root))
}

/// Reads a call of one of the BSL tools: its required arguments, or the error that names the
/// first one missing; an unknown tool name is an error too.
pub fn bsl_tool_call(name: &str, arguments: &str) -> (r: Result<BslToolCall, String>)
    ensures
        name@ == "check_bsl_syntax"@ ==> match json_string_at(arguments@, "/code"@) {
            Some(c) => r matches Ok(BslToolCall::CheckSyntax { code }) && code@ == c,
            None => r matches Err(e) && e@ == "Параметр 'code' обязателен для check_bsl_syntax"@,
        },
        name@ == "goto_definition"@ ==> match position_arguments(arguments@) {
            Err(m) => r matches Err(e) && e@ == m,
            Ok((file, line, ch)) => r matches Ok(BslToolCall::GotoDefinition { uri, line: l, character: c, config_root })
                && opt_seq(config_root) == json_string_at(arguments@, "/config_root"@)
                && uri@ == tool_document_uri(file, opt_seq(config_root)) && l == line && c == ch,
        },
        name@ == "resolve_definition_context"@ ==> match position_arguments(arguments@) {
            Err(m) => r matches Err(e) && e@ == m,
            Ok((file, line, ch)) => r matches Ok(
                BslToolCall::ResolveDefinitionContext { uri, line: l, character: c, radius, config_root },
            ) && opt_seq(config_root) == json_string_at(arguments@, "/config_root"@)
                && uri@ == tool_document_uri(file, opt_seq(config_root)) && l == line && c == ch
                && radius == (match json_u64_at(arguments@, "/radius"@) {
                Some(x) => x,
                None => 30,
            }),
        },
        name@ != "check_bsl_syntax"@ && name@ != "goto_definition"@ && name@ != "resolve_definition_context"@
            ==> (r matches Err(e) && e@ == "Неизвестный инструмент BSL: "@ + name@),
{
    proof {
        reveal_strlit("check_bsl_syntax");
        reveal_strlit("goto_definition");
        reveal_strlit("resolve_definition_context");
        assert("check_bsl_syntax"@.len() != "goto_definition"@.len());
        assert("check_bsl_syntax"@.len() != "resolve_definition_context"@.len());
        assert("goto_definition"@.len() != "resolve_definition_context"@.len());
    }
    if crate::text::str_eq(name, "check_bsl_syntax") {
        return match json_string_at_pointer(arguments, "/code") {
            Some(code) => Ok(BslToolCall::CheckSyntax { code }),
            None => Err("Параметр 'code' обязателен для check_bsl_syntax".to_owned()),
        };
    }
    let goto = crate::text::str_eq(name, "goto_definition");
    let resolve = crate::text::str_eq(name, "resolve_definition_context");
    if !goto && !resolve {
        return Err(concat2("Неизвестный инструмент BSL: ", name));
    }
    let file = match json_string_at_pointer(arguments, "/file") {
        Some(f) => f,
        None => return Err("Параметр 'file' обязателен".to_owned()),
    };
    let line = match json_u64_at_pointer(arguments, "/line") {
        Some(l) => l as u32,
        None => return Err("Параметр 'line' обязателен".to_owned()),
    };
    let character = match json_u64_at_pointer(arguments, "/character") {
        Some(c) => c as u32,
        None => return Err("Параметр 'character' обязателен".to_owned()),
    };
    let config_root = json_string_at_pointer(arguments, "/config_root");
    let abs_path = match &config_root {
        Some(root) => resolve_bsl_file_path(file.as_str(), Some(root.as_str())),
        None => resolve_bsl_file_path(file.as_str(), None),
    };
    let uri = path_to_file_uri(abs_path.as_str());
    if goto {
        Ok(BslToolCall::GotoDefinition { uri, line, character, config_root })
    } else {
        let radius = match json_u64_at_pointer(arguments, "/radius") {
            Some(x) => x,
            None => 30,
        };
        Ok(BslToolCall::ResolveDefinitionContext { uri, line, character, radius, config_root })
    }
}

// ───────────────────────────── server messages ─────────────────────────────

/// The part of a URI after its last `/` (all of it when it has none).
pub open spec fn uri_file_name(s: Seq<char>) -> Seq<char>
    decreases s.len(),
{
    if s.len() == 0 {
        s
    } else if s.last() == '/' {
        Seq::empty()
    } else {
        uri_file_name(s.drop_last()).push(s.last())
    }
}

/// Whether published diagnostics are for the analysed document: the same URI, or one that
/// ends with its file name (the server may add a drive letter).
pub fn diagnostics_uri_matches(diagnostics_uri: &str, uri: &str) -> (b: bool)
    ensures
        b == (diagnostics_uri@ == uri@ || has_suffix(diagnostics_uri@, uri_file_name(uri@))),
{
    let v = chars_of(uri);
    let mut k = v.len();
    assert(v@.subrange(0, k as int) =~= v@);
    assert(v@.subrange(k as int, v@.len() as int) =~= Seq::<char>::empty());
    while k > 0 && v[k - 1] != '/'
        invariant
            k <= v@.len(),
            uri_file_name(v@) == uri_file_name(v@.subrange(0, k as int)) + v@.subrange(k as int, v@.len() as int),
        decreases k,
    {
        let ghost pre = v@.subrange(0, k as int);
        assert(pre.drop_last() =~= v@.subrange(0, k - 1));
        assert(pre.last() == v@[k - 1]);
        assert(uri_file_name(v@.subrange(0, k - 1)).push(v@[k - 1]) + v@.subrange(k as int, v@.len() as int)
            =~= uri_file_name(v@.subrange(0, k - 1)) + v@.subrange(k - 1, v@.len() as int));
        k = k - 1;
    }
    if k > 0 {
        assert(v@.subrange(0, k as int).last() == '/');
    }
    assert(uri_file_name(v@.subrange(0, k as int)) =~= Seq::<char>::empty());
    let name = slice_chars(&v, k, v.len());
    assert(name@ =~= uri_file_name(v@));
    let dv = chars_of(diagnostics_uri);
    crate::text::str_eq(diagnostics_uri, uri) || crate::text::ends_with_chars(&dv, &name)
}

/// The configuration the server is given when it asks for it.
pub open spec fn server_configuration() -> Seq<char> {
    "[{\"bsl\":{\"diagnostics\":{\"parameters\":{\"EmptyLines\":{\"maxCount\":1}}},\"language\":\"ru\"}}]"@
}

/// The result (JSON text) sent back for a request of the server, or none when it gets no
/// answer: the configuration, an empty object for a capability registration, the first
/// offered action's title (else `Да`) for a message with actions, and `null` otherwise; log
/// messages, and message requests without parameters, are not answered.
pub open spec fn server_request_result(method: Seq<char>, params: Option<Seq<char>>) -> Option<Seq<char>> {
    if method == "workspace/configuration"@ {
        Some(server_configuration())
    } else if method == "client/registerCapability"@ {
        Some("{}"@)
    } else if method == "window/logMessage"@ {
        None
    } else if method == "window/showMessageRequest"@ {
        match params {
            Some(p) => Some(
                "{\"title\":"@ + (match json_first_item_member_text(p, "actions"@, "title"@) {
                    Some(t) => t,
                    None => "\"Да\""@,
                }) + "}"@,
            ),
            None => None,
        }
    } else {
        Some("null"@)
    }
}

/// Answers a request of the server.
pub fn server_request_reply(method: &str, params: Option<&str>) -> (r: Option<String>)
    ensures
        match r {
            Some(t) => server_request_result(method@, opt_str(params)) == Some(t@),
            None => server_request_result(method@, opt_str(params)) is None,
        },
{
    if crate::text::str_eq(method, "workspace/configuration") {
        Some(
            "[{\"bsl\":{\"diagnostics\":{\"parameters\":{\"EmptyLines\":{\"maxCount\":1}}},\"language\":\"ru\"}}]".to_owned(),
        )
    } else if crate::text::str_eq(method, "client/registerCapability") {
        Some("{}".to_owned())
    } else if crate::text::str_eq(method, "window/logMessage") {
        None
    } else if crate::text::str_eq(method, "window/showMessageRequest") {
        match params {
            Some(p) => {
                let title = match json_first_item_member(p, "actions", "title") {
                    Some(t) => t,
                    None => "\"Да\"".to_owned(),
                };
                Some(concat3("{\"title\":", title.as_str(), "}"))
            },
            None => None,
        }
    } else {
        Some("null".to_owned())
    }
}

/// The text of an optional `&str`.
pub open spec fn opt_str(o: Option<&str>) -> Option<Seq<char>> {
    match o {
        Some(s) => Some(s@),
        None => None,
    }
}


// ───────────────────────────── diagnosis report ─────────────────────────────

/// The item has these fields.
pub open spec fn item_is(
    i: BslDiagnosticItem,
    status: Seq<char>,
    title: Seq<char>,
    message: Seq<char>,
    suggestion: Option<Seq<char>>,
) -> bool {
    &&& i.status@ == status
    &&& i.title@ == title
    &&& i.message@ == message
    &&& match i.suggestion {
        Some(s) => suggestion == Some(s@),
        None => suggestion is None,
    }
}

fn item(status: &str, title: &str, message: String, suggestion: Option<&str>) -> (i: BslDiagnosticItem)
    ensures
        item_is(i, status@, title@, message@, match suggestion {
            Some(s) => Some(s@),
            None => None,
        }),
{
    BslDiagnosticItem {
        status: status.to_owned(),
        title: title.to_owned(),
        message,
        suggestion: match suggestion {
            Some(s) => Some(s.to_owned()),
            None => None,
        },
    }
}

/// How a probe of the running server went.
#[derive(Debug)]
pub enum ProbeOutcome {
    Reached,
    /// The probe failed with this error text.
    Failed(String),
    /// No answer within the probe's time limit.
    TimedOut,
}

/// The advice to reinstall the official Windows package.
pub open spec fn reinstall_advice() -> Seq<char> {
    "Переустановите официальный Windows-пакет кнопкой Download."@
}

/// The item for a native server that could not report its version; `message` says why
/// (see `version_exit_message`).
pub fn native_version_failure_item(message: String) -> (i: BslDiagnosticItem)
    ensures
        item_is(i, "error"@, "Ошибка запуска BSL Language Server"@, message@, Some(reinstall_advice())),
{
    item(
        "error",
        "Ошибка запуска BSL Language Server",
        message,
        Some("Переустановите официальный Windows-пакет кнопкой Download."),
    )
}

/// The message for a `version` command that ended with a failure status (as shown).
pub fn version_exit_message(status: &str) -> (r: String)
    ensures
        r@ == "Команда version завершилась со статусом "@ + status@ + "."@,
{
    concat3("Команда version завершилась со статусом ", status, ".")
}

/// The item saying that the native package brings its own runtime.
pub fn native_runtime_item() -> (i: BslDiagnosticItem)
    ensures
        item_is(
            i,
            "ok"@,
            "Runtime"@,
            "Используется встроенный runtime официального Windows-пакета; внешняя Java не требуется."@,
            None,
        ),
{
    item(
        "ok",
        "Runtime",
        "Используется встроенный runtime официального Windows-пакета; внешняя Java не требуется.".to_owned(),
        None,
    )
}

/// `ws://127.0.0.1:<port>/lsp`.
pub open spec fn lsp_socket_url(port: u16) -> Seq<char> {
    "ws://127.0.0.1:"@ + decimal(port as nat) + "/lsp"@
}

/// `http://127.0.0.1:<port>/mcp`.
pub open spec fn mcp_endpoint_url(port: u16) -> Seq<char> {
    "http://127.0.0.1:"@ + decimal(port as nat) + "/mcp"@
}

fn local_url(scheme_host: &str, port: u16, path: &str) -> (r: String)
    ensures
        r@ == scheme_host@ + decimal(port as nat) + path@,
{
    let mut r = scheme_host.to_owned();
    push_str(&mut r, u64_to_decimal(port as u64).as_str());
    push_str(&mut r, path);
    r
}

/// The advice to reconnect.
pub open spec fn reconnect_advice() -> Seq<char> {
    "Нажмите Reconnect и повторите диагностику."@
}

/// The item for the LSP WebSocket of the native server.
pub fn native_socket_item(port: u16, outcome: ProbeOutcome) -> (i: BslDiagnosticItem)
    ensures
        match outcome {
            ProbeOutcome::Reached => item_is(
                i,
                "ok"@,
                "LSP WebSocket"@,
                "Соединение с "@ + lsp_socket_url(port) + " установлено."@,
                None,
            ),
            ProbeOutcome::Failed(e) => item_is(i, "warn"@, "LSP WebSocket недоступен"@, e@, Some(reconnect_advice())),
            ProbeOutcome::TimedOut => item_is(
                i,
                "error"@,
                "Таймаут LSP WebSocket"@,
                "Сервер не ответил за 3 секунды."@,
                Some(reconnect_advice()),
            ),
        },
{
    match outcome {
        ProbeOutcome::Reached => {
            let url = local_url("ws://127.0.0.1:", port, "/lsp");
            item("ok", "LSP WebSocket", concat3("Соединение с ", url.as_str(), " установлено."), None)
        },
        ProbeOutcome::Failed(e) => item(
            "warn",
            "LSP WebSocket недоступен",
            e,
            Some("Нажмите Reconnect и повторите диагностику."),
        ),
        ProbeOutcome::TimedOut => item(
            "error",
            "Таймаут LSP WebSocket",
            "Сервер не ответил за 3 секунды.".to_owned(),
            Some("Нажмите Reconnect и повторите диагностику."),
        ),
    }
}

/// The item for the official MCP endpoint: `reply` is the HTTP status code and its text as
/// shown, or the error of the request.
pub fn mcp_endpoint_item(port: u16, reply: Result<(u16, String), String>) -> (i: BslDiagnosticItem)
    ensures
        match reply {
            Ok((code, shown)) => if (200 <= code && code <= 299) || code == 400 {
                item_is(
                    i,
                    "ok"@,
                    "Official MCP"@,
                    "Endpoint "@ + mcp_endpoint_url(port) + " доступен; запрос без MCP-сессии ожидаемо вернул HTTP "@
                        + shown@ + "."@,
                    None,
                )
            } else {
                item_is(
                    i,
                    "warn"@,
                    "Official MCP вернул ошибку"@,
                    "Endpoint "@ + mcp_endpoint_url(port) + " вернул HTTP "@ + shown@ + "."@,
                    Some(reconnect_advice()),
                )
            },
            Err(e) => item_is(
                i,
                "warn"@,
                "Official MCP недоступен"@,
                e@,
                Some("Убедитесь, что установлен BSL Language Server 1.x и выполнен Reconnect."@),
            ),
        },
{
    match reply {
        Ok((code, shown)) => {
            let url = local_url("http://127.0.0.1:", port, "/mcp");
            if is_expected_mcp_probe_status(code) {
                let mut m = concat2("Endpoint ", url.as_str());
                push_str(&mut m, " доступен; запрос без MCP-сессии ожидаемо вернул HTTP ");
                push_str(&mut m, shown.as_str());
                push_str(&mut m, ".");
                item("ok", "Official MCP", m, None)
            } else {
                let mut m = concat2("Endpoint ", url.as_str());
                push_str(&mut m, " вернул HTTP ");
                push_str(&mut m, shown.as_str());
                push_str(&mut m, ".");
                item("warn", "Official MCP вернул ошибку", m, Some("Нажмите Reconnect и повторите диагностику."))
            }
        },
        Err(e) => item(
            "warn",
            "Official MCP недоступен",
            e,
            Some("Убедитесь, что установлен BSL Language Server 1.x и выполнен Reconnect."),
        ),
    }
}

/// The item for a Java runtime that could not be started from the configured path.
pub fn java_missing_item(java_path: &str, error: &str) -> (i: BslDiagnosticItem)
    ensures
        item_is(
            i,
            "error"@,
            "Java не найдена"@,
            "Ошибка при поиске Java по пути '"@ + java_path@ + "': "@ + error@,
            Some("Установите Java 17+ и укажите корректный путь в настройках."@),
        ),
{
    let mut m = concat3("Ошибка при поиске Java по пути '", java_path, "': ");
    push_str(&mut m, error);
    item("error", "Java не найдена", m, Some("Установите Java 17+ и укажите корректный путь в настройках."))
}

/// The item for a server JAR that is not where the settings say.
pub fn jar_missing_item(jar_path: &str) -> (i: BslDiagnosticItem)
    ensures
        item_is(
            i,
            "error"@,
            "JAR файл не найден"@,
            "По пути '"@ + jar_path@ + "' ничего не найдено."@,
            Some("Нажмите 'Download' в настройках BSL Server для загрузки."@),
        ),
{
    item(
        "error",
        "JAR файл не найден",
        concat3("По пути '", jar_path, "' ничего не найдено."),
        Some("Нажмите 'Download' в настройках BSL Server для загрузки."),
    )
}

/// Bytes a server JAR has at least (one mebibyte); a smaller file is taken as damaged.
pub const MIN_JAR_BYTES: u64 = 1048576;

/// Whether a server JAR of `len` bytes is large enough to be whole. (Its size in mebibytes,
/// computed in floating point, is below one exactly when `len` is below 2^20.)
pub fn jar_size_ok(len: u64) -> (b: bool)
    ensures
        b == (len >= MIN_JAR_BYTES),
{
    len >= MIN_JAR_BYTES
}

/// The item for a server JAR of `len` bytes, whose size in mebibytes reads `size_text`:
/// damaged below `MIN_JAR_BYTES`, ready otherwise.
pub fn jar_size_item(len: u64, size_text: &str) -> (i: BslDiagnosticItem)
    ensures
        len < MIN_JAR_BYTES ==> item_is(
            i,
            "error"@,
            "JAR файл поврежден"@,
            "Файл найден, но его размер ("@ + size_text@ + " МБ) слишком мал."@,
            Some("Удалите файл и нажмите 'Download' в настройках BSL Server."@),
        ),
        len >= MIN_JAR_BYTES ==> item_is(
            i,
            "ok"@,
            "BSL Server JAR"@,
            "Файл найден и готов к работе ("@ + size_text@ + " МБ)."@,
            None,
        ),
{
    if jar_size_ok(len) {
        item("ok", "BSL Server JAR", concat3("Файл найден и готов к работе (", size_text, " МБ)."), None)
    } else {
        item(
            "error",
            "JAR файл поврежден",
            concat3("Файл найден, но его размер (", size_text, " МБ) слишком мал."),
            Some("Удалите файл и нажмите 'Download' в настройках BSL Server."),
        )
    }
}

/// The item for a trial run of the server JAR: success, or a failure whose error output
/// (`stderr`) and exit status (as shown) tell what went wrong.
pub fn jar_trial_item(success: bool, stderr: &str, status: &str) -> (i: BslDiagnosticItem)
    ensures
        success ==> item_is(i, "ok"@, "Запуск сервера"@, "Тестовый запуск JAR прошел успешно."@, None),
        !success ==> item_is(
            i,
            "error"@,
            "Ошибка запуска JAR"@,
            if seq_contains(stderr@, "UnsupportedClassVersionError"@) {
                "Несовместимая версия Java при попытке запуска JAR."@
            } else {
                "Сервер не запустился (код: "@ + status@ + ")."@
            },
            Some("Проверьте версию Java (требуется 17+) или целостность JAR-файла."@),
        ),
{
    if success {
        item("ok", "Запуск сервера", "Тестовый запуск JAR прошел успешно.".to_owned(), None)
    } else {
        let message = if crate::text::str_contains(stderr, "UnsupportedClassVersionError") {
            "Несовместимая версия Java при попытке запуска JAR.".to_owned()
        } else {
            concat3("Сервер не запустился (код: ", status, ").")
        };
        item(
            "error",
            "Ошибка запуска JAR",
            message,
            Some("Проверьте версию Java (требуется 17+) или целостность JAR-файла."),
        )
    }
}

/// The item for a trial run that could not be started.
pub fn jar_spawn_failure_item(error: &str) -> (i: BslDiagnosticItem)
    ensures
        item_is(
            i,
            "error"@,
            "Ошибка выполнения"@,
            "Не удалось запустить процесс: "@ + error@,
            Some("Убедитесь, что Java установлена и путь к ней корректен."@),
        ),
{
    item(
        "error",
        "Ошибка выполнения",
        concat2("Не удалось запустить процесс: ", error),
        Some("Убедитесь, что Java установлена и путь к ней корректен."),
    )
}

/// The item for the server's port: a free port means the server is not running.
pub fn port_state_item(port: u16, port_is_free: bool) -> (i: BslDiagnosticItem)
    ensures
        port_is_free ==> item_is(
            i,
            "warn"@,
            "Сетевой порт"@,
            "Порт "@ + decimal(port as nat) + " свободен. Это значит, что сервер BSL сейчас НЕ запущен."@,
            Some("Попробуйте нажать 'Reconnect' или 'Save Settings' для запуска сервера."@),
        ),
        !port_is_free ==> item_is(
            i,
            "ok"@,
            "Сетевой порт"@,
            "Порт "@ + decimal(port as nat) + " занят (сервер запущен)."@,
            None,
        ),
{
    let n = u64_to_decimal(port as u64);
    if port_is_free {
        item(
            "warn",
            "Сетевой порт",
            concat3("Порт ", n.as_str(), " свободен. Это значит, что сервер BSL сейчас НЕ запущен."),
            Some("Попробуйте нажать 'Reconnect' или 'Save Settings' для запуска сервера."),
        )
    } else {
        item("ok", "Сетевой порт", concat3("Порт ", n.as_str(), " занят (сервер запущен)."), None)
    }
}

/// The item for a plain HTTP request to the server's port: any success or `404` (the server
/// speaks WebSocket only) means it answers.
pub fn http_probe_item(reply: Result<u16, String>) -> (i: BslDiagnosticItem)
    ensures
        match reply {
            Ok(code) => if (200 <= code < 300) || code == 404 {
                item_is(i, "ok"@, "HTTP ответ"@, "Сервер запущен и отвечает."@, None)
            } else {
                item_is(
                    i,
                    "warn"@,
                    "HTTP ответ"@,
                    "Сервер ответил с неожиданным статусом: "@ + decimal(code as nat) + "."@,
                    None,
                )
            },
            Err(e) => item_is(
                i,
                "error"@,
                "Ошибка HTTP"@,
                "Порт занят, но сервер не отвечает на HTTP запрос: "@ + e@,
                Some("Возможно, порт занят другим приложением или сервер завис."@),
            ),
        },
{
    match reply {
        Ok(code) => if (200 <= code && code < 300) || code == 404 {
            item("ok", "HTTP ответ", "Сервер запущен и отвечает.".to_owned(), None)
        } else {
            let n = u64_to_decimal(code as u64);
            item("warn", "HTTP ответ", concat3("Сервер ответил с неожиданным статусом: ", n.as_str(), "."), None)
        },
        Err(e) => item(
            "error",
            "Ошибка HTTP",
            concat2("Порт занят, но сервер не отвечает на HTTP запрос: ", e.as_str()),
            Some("Возможно, порт занят другим приложением или сервер завис."),
        ),
    }
}

/// The item for the WebSocket handshake with a server started from the JAR.
pub fn handshake_item(outcome: ProbeOutcome) -> (i: BslDiagnosticItem)
    ensures
        match outcome {
            ProbeOutcome::Reached => item_is(
                i,
                "ok"@,
                "WebSocket соединение"@,
                "WebSocket рукопожатие прошло успешно."@,
                None,
            ),
            ProbeOutcome::Failed(e) => item_is(
                i,
                "error"@,
                "Ошибка WebSocket"@,
                "Не удалось установить WebSocket соединение: "@ + e@,
                Some("Проверьте настройки брандмауэра или антивируса."@),
            ),
            ProbeOutcome::TimedOut => item_is(
                i,
                "error"@,
                "Таймаут WebSocket"@,
                "Превышено время ожидания WebSocket рукопожатия (3 сек)."@,
                Some("Попробуйте перезапустить приложение."@),
            ),
        },
{
    match outcome {
        ProbeOutcome::Reached => item(
            "ok",
            "WebSocket соединение",
            "WebSocket рукопожатие прошло успешно.".to_owned(),
            None,
        ),
        ProbeOutcome::Failed(e) => item(
            "error",
            "Ошибка WebSocket",
            concat2("Не удалось установить WebSocket соединение: ", e.as_str()),
            Some("Проверьте настройки брандмауэра или антивируса."),
        ),
        ProbeOutcome::TimedOut => item(
            "error",
            "Таймаут WebSocket",
            "Превышено время ожидания WebSocket рукопожатия (3 сек).".to_owned(),
            Some("Попробуйте перезапустить приложение."),
        ),
    }
}


// ───────────────────────────── connection ─────────────────────────────

/// Attempts made to reach the server's WebSocket before giving up.
pub const BSL_CONNECT_MAX_ATTEMPTS: u32 = 30;

/// Pause between two connection attempts, in milliseconds.
pub const BSL_CONNECT_RETRY_MS: u64 = 500;

/// Why a connection attempt failed.
#[derive(Debug)]
pub enum ConnectFailure {
    /// The WebSocket connection was refused or broke; the text says how.
    Refused(String),
    /// The handshake took longer than three seconds.
    HandshakeTimeout,
}

/// What follows the `attempt`-th failed connection attempt (counting from 1): another try
/// after the pause, or, at the last attempt, the error that ends connecting.
pub fn connect_retry(attempt: u32, failure: ConnectFailure) -> (r: Result<(), String>)
    ensures
        attempt < BSL_CONNECT_MAX_ATTEMPTS ==> r is Ok,
        attempt >= BSL_CONNECT_MAX_ATTEMPTS ==> (r matches Err(e) && e@ == match failure {
            ConnectFailure::Refused(m) => "Failed to connect to BSL LS after 30 attempts: "@ + m@,
            ConnectFailure::HandshakeTimeout => "Failed to connect to BSL LS (Handshake Timeout) after 30 attempts"@,
        }),
{
    if attempt < BSL_CONNECT_MAX_ATTEMPTS {
        return Ok(());
    }
    match failure {
        ConnectFailure::Refused(m) => Err(concat2("Failed to connect to BSL LS after 30 attempts: ", m.as_str())),
        ConnectFailure::HandshakeTimeout => Err(
            "Failed to connect to BSL LS (Handshake Timeout) after 30 attempts".to_owned(),
        ),
    }
}

// ───────────────────────────── MCP tool list ─────────────────────────────

/// Input schema of `check_bsl_syntax` (compact JSON, keys in order).
pub open spec fn check_syntax_schema() -> Seq<char> {
    "{\"properties\":{\"code\":{\"description\":\"Исходный код на языке BSL для анализа.\",\"type\":\"string\"}},\"required\":[\"code\"],\"type\":\"object\"}"@
}

/// Input schema of `goto_definition`.
pub open spec fn goto_definition_schema() -> Seq<char> {
    "{\"properties\":{\"character\":{\"description\":\"Позиция символа в строке (0-based).\",\"type\":\"integer\"},\"config_root\":{\"description\":\"Корневой путь конфигурации для резолва относительных путей.\",\"type\":\"string\"},\"file\":{\"description\":\"Абсолютный путь к BSL файлу или путь относительно корня конфигурации.\",\"type\":\"string\"},\"line\":{\"description\":\"Номер строки (0-based, LSP convention).\",\"type\":\"integer\"}},\"required\":[\"file\",\"line\",\"character\"],\"type\":\"object\"}"@
}

/// Input schema of `resolve_definition_context`.
pub open spec fn resolve_context_schema() -> Seq<char> {
    "{\"properties\":{\"character\":{\"description\":\"Позиция символа в строке (0-based).\",\"type\":\"integer\"},\"config_root\":{\"description\":\"Корневой путь конфигурации для резолва относительных путей.\",\"type\":\"string\"},\"file\":{\"description\":\"Абсолютный путь к BSL файлу или путь относительно корня конфигурации.\",\"type\":\"string\"},\"line\":{\"description\":\"Номер строки (0-based, LSP convention).\",\"type\":\"integer\"},\"radius\":{\"default\":30,\"description\":\"Количество строк контекста вокруг определения (по умолчанию 30).\",\"type\":\"integer\"}},\"required\":[\"file\",\"line\",\"character\"],\"type\":\"object\"}"@
}

/// The tools the BSL language server offers over MCP: syntax check, go to definition, and
/// definition with its surrounding code.
pub fn bsl_mcp_tools() -> (r: Vec<McpTool>)
    ensures
        r@.len() == 3,
        r@[0].name@ == "check_bsl_syntax"@,
        r@[0].description@ == "Проверяет BSL код (1С) на наличие синтаксических ошибок и предупреждений с использованием BSL Language Server."@,
        r@[0].input_schema@ == check_syntax_schema(),
        r@[1].name@ == "goto_definition"@,
        r@[1].description@ == "Семантический переход к определению символа BSL (процедуры, функции, переменной) по позиции в файле. Быстрее и точнее чем text search для навигации по коду."@,
        r@[1].input_schema@ == goto_definition_schema(),
        r@[2].name@ == "resolve_definition_context"@,
        r@[2].description@ == "Переходит к определению символа BSL и возвращает контекст кода вокруг определения. Объединяет goto_definition + get_file_context в один вызов."@,
        r@[2].input_schema@ == resolve_context_schema(),
{
    let mut r: Vec<McpTool> = Vec::new();
    r.push(McpTool {
        name: "check_bsl_syntax".to_owned(),
        description: "Проверяет BSL код (1С) на наличие синтаксических ошибок и предупреждений с использованием BSL Language Server.".to_owned(),
        input_schema: "{\"properties\":{\"code\":{\"description\":\"Исходный код на языке BSL для анализа.\",\"type\":\"string\"}},\"required\":[\"code\"],\"type\":\"object\"}".to_owned(),
    });
    r.push(McpTool {
        name: "goto_definition".to_owned(),
        description: "Семантический переход к определению символа BSL (процедуры, функции, переменной) по позиции в файле. Быстрее и точнее чем text search для навигации по коду.".to_owned(),
        input_schema: "{\"properties\":{\"character\":{\"description\":\"Позиция символа в строке (0-based).\",\"type\":\"integer\"},\"config_root\":{\"description\":\"Корневой путь конфигурации для резолва относительных путей.\",\"type\":\"string\"},\"file\":{\"description\":\"Абсолютный путь к BSL файлу или путь относительно корня конфигурации.\",\"type\":\"string\"},\"line\":{\"description\":\"Номер строки (0-based, LSP convention).\",\"type\":\"integer\"}},\"required\":[\"file\",\"line\",\"character\"],\"type\":\"object\"}".to_owned(),
    });
    r.push(McpTool {
        name: "resolve_definition_context".to_owned(),
        description: "Переходит к определению символа BSL и возвращает контекст кода вокруг определения. Объединяет goto_definition + get_file_context в один вызов.".to_owned(),
        input_schema: "{\"properties\":{\"character\":{\"description\":\"Позиция символа в строке (0-based).\",\"type\":\"integer\"},\"config_root\":{\"description\":\"Корневой путь конфигурации для резолва относительных путей.\",\"type\":\"string\"},\"file\":{\"description\":\"Абсолютный путь к BSL файлу или путь относительно корня конфигурации.\",\"type\":\"string\"},\"line\":{\"description\":\"Номер строки (0-based, LSP convention).\",\"type\":\"integer\"},\"radius\":{\"default\":30,\"description\":\"Количество строк контекста вокруг определения (по умолчанию 30).\",\"type\":\"integer\"}},\"required\":[\"file\",\"line\",\"character\"],\"type\":\"object\"}".to_owned(),
    });
    r
}

} // verus!
