//! Diagnostics text for bug reports: the configuration file with its secrets blanked out.

use vstd::prelude::*;

use crate::dictionaries::{dictionary_line, dictionary_line_spec, DictionaryInfo};
use crate::text::{
    decimal, joined, push_decimal, push_joined, texts,
    chars_of, has_prefix, join_lines, lemma_join_lines_concat, lines, next_line, push_char,
    push_range, push_str, range_has_prefix, trim_start, trim_start_bound,
};

verus! {

/// A configuration line as the diagnostics show it: a line that (after leading white
/// space) starts with `api_key`, but not `api_key_env` (which names a variable, not a
/// secret), is replaced as a whole.
pub open spec fn redact_line(line: Seq<char>) -> Seq<char> {
    let t = trim_start(line);
    if has_prefix(t, "api_key"@) && !has_prefix(t, "api_key_env"@) {
        "api_key = \"<已隐去>\""@
    } else {
        line
    }
}

/// The whole text with every line redacted, lines joined by `'\n'`.
pub open spec fn redacted(text: Seq<char>) -> Seq<char> {
    join_lines(lines(text).map_values(|l: Seq<char>| redact_line(l)))
}

/// Blanks the value of every `api_key = "…"` line of a configuration text; `api_key_env`
/// lines (a variable name) and all other lines stay as they are.
pub fn redact_secrets(text: &str) -> (out: String)
    ensures
        out@ == redacted(text@),
{
    let cs = chars_of(text);
    let key = chars_of("api_key");
    let env = chars_of("api_key_env");
    let n = cs.len();
    let mut out = String::new();
    let mut pos: usize = 0;
    let ghost mut done: Seq<Seq<char>> = Seq::empty();
    assert(cs@.skip(0) =~= cs@);
    while pos < n
        invariant
            pos <= n == cs.len(),
            cs@ == text@,
            key@ == "api_key"@,
            env@ == "api_key_env"@,
            out@ == join_lines(done),
            pos == 0 <==> done.len() == 0,
            redacted(text@) == join_lines(
                done + lines(cs@.skip(pos as int)).map_values(|l: Seq<char>| redact_line(l)),
            ),
        decreases n - pos,
    {
        let (end, next) = next_line(&cs, pos);
        let ghost line = cs@.subrange(pos as int, end as int);
        let a = trim_start_bound(&cs, pos, end);
        let secret = range_has_prefix(&cs, a, end, &key) && !range_has_prefix(&cs, a, end, &env);
        if pos > 0 {
            push_char(&mut out, '\n');
        }
        if secret {
            push_str(&mut out, "api_key = \"<已隐去>\"");
        } else {
            push_range(&mut out, &cs, pos, end);
        }
        proof {
            let r = redact_line(line);
            assert(out@ == join_lines(done) + (if pos > 0 { seq!['\n'] } else { Seq::empty() })
                + r);
            let rest = lines(cs@.skip(pos as int));
            let mapped = rest.map_values(|l: Seq<char>| redact_line(l));
            let later = lines(cs@.skip(next as int)).map_values(|l: Seq<char>| redact_line(l));
            assert(mapped =~= seq![r] + later);
            assert(done + mapped =~= done.push(r) + later);
            if done.len() == 0 {
                assert(done.push(r) =~= seq![r]);
            } else {
                lemma_join_lines_concat(done, seq![r]);
                assert(done + seq![r] =~= done.push(r));
            }
            done = done.push(r);
        }
        pos = next;
    }
    proof {
        assert(cs@.skip(n as int) =~= Seq::<char>::empty());
        assert(lines(Seq::<char>::empty()) == Seq::<Seq<char>>::empty());
        assert(done + Seq::<Seq<char>>::empty().map_values(|l: Seq<char>| redact_line(l)) =~= done);
    }
    out
}

/// What the diagnostics report, gathered by the shell.
pub struct Diagnostics {
    /// Version and build identifier.
    pub version: String,
    pub build: String,
    /// The system's version string and the processor architecture.
    pub os: String,
    pub arch: String,
    /// Entries of the main dictionary.
    pub main_entries: usize,
    /// The rows of the dictionaries page.
    pub dictionaries: Vec<DictionaryInfo>,
    /// The bundled glossary languages, by code.
    pub languages: Vec<String>,
    /// Lines of the input log, when the log is on.
    pub input_log_lines: Option<u64>,
    /// Han characters typed in all, and on how many days.
    pub hanzi_total: u64,
    pub days: u64,
    /// The learning language and its vocabulary counts.
    pub learning_language: String,
    pub seen: u64,
    pub familiar: u64,
    pub committed: u64,
    /// Cloud prediction is on.
    pub prediction_enabled: bool,
    /// The error of the configuration file, if it has one.
    pub config_error: Option<String>,
    /// The log directory.
    pub log_dir: Option<String>,
    /// The configuration file, and its text when it could be read.
    pub config_path: Option<String>,
    pub config_text: Option<String>,
}

/// The lines of the dictionary rows, each ended by `'\n'`.
pub open spec fn dictionary_lines(infos: Seq<DictionaryInfo>) -> Seq<char>
    decreases infos.len(),
{
    if infos.len() == 0 {
        Seq::empty()
    } else {
        dictionary_lines(infos.drop_last()) + dictionary_line_spec(infos.last()) + seq!['\n']
    }
}

/// The first lines of the diagnostics: version, system, main dictionary.
pub open spec fn header_text(d: Diagnostics) -> Seq<char> {
    "曼波 "@ + d.version@ + " ("@ + d.build@ + ")\n"@ + "macOS "@ + d.os@ + " · "@ + d.arch@
        + "\n"@ + "主词库："@ + decimal(d.main_entries as nat) + " 条\n"@
}

/// The glossary and input log lines.
pub open spec fn glossary_text(d: Diagnostics) -> Seq<char> {
    "释义表："@ + joined(texts(d.languages@), " "@) + "\n"@ + "输入日志："@ + match d.input_log_lines {
        Some(n) => "开，"@ + decimal(n as nat) + " 行"@,
        None => "关"@,
    } + "\n"@
}

/// The usage, vocabulary and cloud lines.
pub open spec fn counts_text(d: Diagnostics) -> Seq<char> {
    "输入统计：累计 "@ + decimal(d.hanzi_total as nat) + " 字 · "@ + decimal(d.days as nat)
        + " 天\n"@ + "词汇（"@ + d.learning_language@ + "）：见过 "@ + decimal(d.seen as nat)
        + " · 看熟 "@ + decimal(d.familiar as nat) + " · 上屏过 "@ + decimal(d.committed as nat)
        + "\n"@ + "云联想："@ + (if d.prediction_enabled {
        "开"@
    } else {
        "关"@
    }) + "\n"@
}

/// The configuration error line, when there is an error.
pub open spec fn error_line(d: Diagnostics) -> Seq<char> {
    match d.config_error {
        Some(e) => "配置错误："@ + e@ + "\n"@,
        None => Seq::empty(),
    }
}

/// The log directory line, when there is one.
pub open spec fn log_line(d: Diagnostics) -> Seq<char> {
    match d.log_dir {
        Some(dir) => "日志目录："@ + dir@ + "\n"@,
        None => Seq::empty(),
    }
}

/// The configuration file line and the file's text, its secrets blanked out.
pub open spec fn config_part(d: Diagnostics) -> Seq<char> {
    match d.config_path {
        Some(path) => "配置文件："@ + path@ + "\n"@ + match d.config_text {
            Some(text) => "--- config.toml ---\n"@ + redacted(text@),
            None => Seq::empty(),
        },
        None => Seq::empty(),
    }
}

/// The last lines: configuration error, log directory, configuration file and its text.
pub open spec fn files_text(d: Diagnostics) -> Seq<char> {
    error_line(d) + log_line(d) + config_part(d)
}

/// The diagnostics text: one line per fact, then the configuration file with its secrets
/// blanked out.
pub open spec fn diagnostics_text(d: Diagnostics) -> Seq<char> {
    header_text(d) + dictionary_lines(d.dictionaries@) + glossary_text(d) + counts_text(d)
        + files_text(d)
}

impl Diagnostics {
    fn push_header(&self, out: &mut String)
        ensures
            final(out)@ == old(out)@ + header_text(*self),
    {
        push_str(out, "曼波 ");
        push_str(out, self.version.as_str());
        push_str(out, " (");
        push_str(out, self.build.as_str());
        push_str(out, ")\n");
        push_str(out, "macOS ");
        push_str(out, self.os.as_str());
        push_str(out, " · ");
        push_str(out, self.arch.as_str());
        push_str(out, "\n");
        push_str(out, "主词库：");
        push_decimal(out, self.main_entries as u64);
        push_str(out, " 条\n");
        assert(out@ =~= old(out)@ + header_text(*self));
    }

    fn push_dictionaries(&self, out: &mut String)
        ensures
            final(out)@ == old(out)@ + dictionary_lines(self.dictionaries@),
    {
        let mut i: usize = 0;
        while i < self.dictionaries.len()
            invariant
                i <= self.dictionaries@.len(),
                out@ == old(out)@ + dictionary_lines(self.dictionaries@.take(i as int)),
            decreases self.dictionaries.len() - i,
        {
            let line = dictionary_line(&self.dictionaries[i]);
            let ghost before = out@;
            push_str(out, line.as_str());
            push_char(out, '\n');
            proof {
                let ds = self.dictionaries@;
                assert(ds.take(i + 1).drop_last() =~= ds.take(i as int));
                assert(ds.take(i + 1).last() == ds[i as int]);
                assert(out@ =~= old(out)@ + (dictionary_lines(ds.take(i as int))
                    + dictionary_line_spec(ds[i as int]) + seq!['\n']));
            }
            i = i + 1;
        }
        assert(self.dictionaries@.take(self.dictionaries@.len() as int) =~= self.dictionaries@);
    }

    fn push_glossary(&self, out: &mut String)
        ensures
            final(out)@ == old(out)@ + glossary_text(*self),
    {
        push_str(out, "释义表：");
        push_joined(out, &self.languages, self.languages.len(), " ");
        assert(texts(self.languages@).take(self.languages@.len() as int) =~= texts(
            self.languages@,
        ));
        push_str(out, "\n");
        push_str(out, "输入日志：");
        match self.input_log_lines {
            Some(n) => {
                push_str(out, "开，");
                push_decimal(out, n);
                push_str(out, " 行");
            },
            None => push_str(out, "关"),
        }
        push_str(out, "\n");
        assert(out@ =~= old(out)@ + glossary_text(*self));
    }

    fn push_counts(&self, out: &mut String)
        ensures
            final(out)@ == old(out)@ + counts_text(*self),
    {
        push_str(out, "输入统计：累计 ");
        push_decimal(out, self.hanzi_total);
        push_str(out, " 字 · ");
        push_decimal(out, self.days);
        push_str(out, " 天\n");
        push_str(out, "词汇（");
        push_str(out, self.learning_language.as_str());
        push_str(out, "）：见过 ");
        push_decimal(out, self.seen);
        push_str(out, " · 看熟 ");
        push_decimal(out, self.familiar);
        push_str(out, " · 上屏过 ");
        push_decimal(out, self.committed);
        push_str(out, "\n");
        push_str(out, "云联想：");
        if self.prediction_enabled {
            push_str(out, "开");
        } else {
            push_str(out, "关");
        }
        push_str(out, "\n");
        assert(out@ =~= old(out)@ + counts_text(*self));
    }

    fn push_files(&self, out: &mut String)
        ensures
            final(out)@ == old(out)@ + files_text(*self),
    {
        if let Some(e) = &self.config_error {
            push_str(out, "配置错误：");
            push_str(out, e.as_str());
            push_str(out, "\n");
        }
        let ghost after_error = out@;
        if let Some(dir) = &self.log_dir {
            push_str(out, "日志目录：");
            push_str(out, dir.as_str());
            push_str(out, "\n");
        }
        let ghost after_logs = out@;
        if let Some(path) = &self.config_path {
            push_str(out, "配置文件：");
            push_str(out, path.as_str());
            push_str(out, "\n");
            if let Some(text) = &self.config_text {
                push_str(out, "--- config.toml ---\n");
                let blanked = redact_secrets(text.as_str());
                push_str(out, blanked.as_str());
            }
        }
        proof {
            assert(after_error =~= old(out)@ + error_line(*self));
            assert(after_logs =~= after_error + log_line(*self));
            assert(out@ =~= after_logs + config_part(*self));
            assert(out@ =~= old(out)@ + files_text(*self));
        }
    }

    /// The environment summary for the author: version, system, loaded data, the
    /// configuration (secrets blanked out), the log directory.
    pub fn text(&self) -> (out: String)
        ensures
            out@ == diagnostics_text(*self),
    {
        let mut out = String::new();
        self.push_header(&mut out);
        self.push_dictionaries(&mut out);
        self.push_glossary(&mut out);
        self.push_counts(&mut out);
        self.push_files(&mut out);
        assert(out@ =~= diagnostics_text(*self));
        out
    }
}

} // verus!
