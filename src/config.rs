use crate::report::{format_report, is_report, report_text, ReportStyle};
use vstd::prelude::*;

verus! {

/// Why a command line could not be read.
#[derive(Clone, Copy, Debug, PartialEq, Eq, Structural)]
pub enum ArgError {
    /// `-o` came last, with no file name after it.
    MissingFilename,
    /// The options took every token, or the program name was empty.
    NoProgram,
}

impl ArgError {
    /// The message shown to the user.
    pub open spec fn spec_message(self) -> Seq<char> {
        match self {
            ArgError::MissingFilename => "Missing filename after -o"@,
            ArgError::NoProgram => "No program specified"@,
        }
    }

    /// The message shown to the user.
    pub fn message(&self) -> (r: String)
        ensures
            r@ == self.spec_message(),
    {
        match self {
            ArgError::MissingFilename => String::from_str("Missing filename after -o"),
            ArgError::NoProgram => String::from_str("No program specified"),
        }
    }
}

/// What one run is to do, read from the command line.
#[derive(Clone, Debug)]
pub struct Config {
    /// Report in the POSIX layout.
    pub posix_format: bool,
    /// Where the report goes; standard output when absent.
    pub output_file: Option<String>,
    /// Append to the output file rather than overwrite it.
    pub append: bool,
    /// The program to run.
    pub program: String,
    /// Its arguments, passed on unchanged.
    pub args: Vec<String>,
}

/// The contents of a [`Config`].
pub struct ConfigView {
    pub posix_format: bool,
    pub output_file: Option<Seq<char>>,
    pub append: bool,
    pub program: Seq<char>,
    pub args: Seq<Seq<char>>,
}

impl View for Config {
    type V = ConfigView;

    open spec fn view(&self) -> ConfigView {
        ConfigView {
            posix_format: self.posix_format,
            output_file: match self.output_file {
                Some(f) => Some(f@),
                None => None,
            },
            append: self.append,
            program: self.program@,
            args: texts(self.args@),
        }
    }
}

/// The text of each string of `v`.
pub open spec fn texts(v: Seq<String>) -> Seq<Seq<char>> {
    v.map_values(|s: String| s@)
}

/// The configuration before any token is read.
pub open spec fn initial_view() -> ConfigView {
    ConfigView {
        posix_format: false,
        output_file: None,
        append: false,
        program: Seq::empty(),
        args: Seq::empty(),
    }
}

/// Whether `s` is one of the options `-p`, `-o`, `-a`.
pub open spec fn is_option(s: Seq<char>) -> bool {
    s == "-p"@ || s == "-o"@ || s == "-a"@
}

/// The end of reading: a configuration with no program is refused.
pub open spec fn finish(acc: ConfigView) -> Result<ConfigView, ArgError> {
    if acc.program.len() == 0 {
        Err(ArgError::NoProgram)
    } else {
        Ok(acc)
    }
}

/// Reads `tokens` from position `i` on, into `acc`. Options are read left to
/// right; the first token that is not an option names the program, and every
/// token after it is an argument of the program, whatever it looks like.
pub open spec fn scan(tokens: Seq<Seq<char>>, i: int, acc: ConfigView) -> Result<
    ConfigView,
    ArgError,
>
    decreases tokens.len() - i,
{
    if i < 0 || i >= tokens.len() {
        finish(acc)
    } else if tokens[i] == "-p"@ {
        scan(tokens, i + 1, ConfigView { posix_format: true, ..acc })
    } else if tokens[i] == "-o"@ {
        if i + 1 < tokens.len() {
            scan(tokens, i + 2, ConfigView { output_file: Some(tokens[i + 1]), ..acc })
        } else {
            Err(ArgError::MissingFilename)
        }
    } else if tokens[i] == "-a"@ {
        scan(tokens, i + 1, ConfigView { append: true, ..acc })
    } else {
        finish(
            ConfigView { program: tokens[i], args: tokens.subrange(i + 1, tokens.len() as int), ..acc },
        )
    }
}

/// The configuration that the command line `tokens` asks for (the tool's own
/// name not included), or why there is none.
pub open spec fn parse_spec(tokens: Seq<Seq<char>>) -> Result<ConfigView, ArgError> {
    scan(tokens, 0, initial_view())
}

/// Whether the tokens from position `i` on are all options, each `-o` with
/// its file name: reading them finds no program.
pub open spec fn options_only(tokens: Seq<Seq<char>>, i: int) -> bool
    decreases tokens.len() - i,
{
    if i < 0 || i >= tokens.len() {
        true
    } else if tokens[i] == "-p"@ || tokens[i] == "-a"@ {
        options_only(tokens, i + 1)
    } else if tokens[i] == "-o"@ {
        i + 1 < tokens.len() && options_only(tokens, i + 2)
    } else {
        false
    }
}

/// The three options are different strings.
proof fn lemma_options_differ()
    ensures
        "-p"@ != "-o"@,
        "-p"@ != "-a"@,
        "-o"@ != "-a"@,
{
    reveal_strlit("-p");
    reveal_strlit("-o");
    reveal_strlit("-a");
    assert("-p"@[1] != "-o"@[1]);
    assert("-p"@[1] != "-a"@[1]);
    assert("-o"@[1] != "-a"@[1]);
}

proof fn lemma_options_only_no_program(tokens: Seq<Seq<char>>, i: int, acc: ConfigView)
    requires
        0 <= i,
        options_only(tokens, i),
        acc.program.len() == 0,
    ensures
        scan(tokens, i, acc) == Err::<ConfigView, ArgError>(ArgError::NoProgram),
    decreases tokens.len() - i,
{
    lemma_options_differ();
    if i < tokens.len() {
        if tokens[i] == "-p"@ {
            lemma_options_only_no_program(tokens, i + 1, ConfigView { posix_format: true, ..acc });
        } else if tokens[i] == "-o"@ {
            lemma_options_only_no_program(
                tokens,
                i + 2,
                ConfigView { output_file: Some(tokens[i + 1]), ..acc },
            );
        } else {
            lemma_options_only_no_program(tokens, i + 1, ConfigView { append: true, ..acc });
        }
    }
}

/// A command line of options alone, the empty one included, names no
/// program and is refused for that.
pub proof fn law_no_program(tokens: Seq<Seq<char>>)
    requires
        options_only(tokens, 0),
    ensures
        parse_spec(tokens) == Err::<ConfigView, ArgError>(ArgError::NoProgram),
{
    lemma_options_only_no_program(tokens, 0, initial_view());
}

proof fn lemma_trailing_o(tokens: Seq<Seq<char>>, i: int, acc: ConfigView)
    requires
        tokens.len() >= 1,
        tokens.last() == "-o"@,
        0 <= i < tokens.len(),
        options_only(tokens.drop_last(), i),
    ensures
        scan(tokens, i, acc) == Err::<ConfigView, ArgError>(ArgError::MissingFilename),
    decreases tokens.len() - i,
{
    lemma_options_differ();
    let head = tokens.drop_last();
    if i < head.len() {
        assert(tokens[i] == head[i]);
        if tokens[i] == "-p"@ {
            lemma_trailing_o(tokens, i + 1, ConfigView { posix_format: true, ..acc });
        } else if tokens[i] == "-o"@ {
            lemma_trailing_o(tokens, i + 2, ConfigView { output_file: Some(tokens[i + 1]), ..acc });
        } else {
            lemma_trailing_o(tokens, i + 1, ConfigView { append: true, ..acc });
        }
    }
}

/// A `-o` reached while reading options, with no token after it, is refused
/// for its missing file name.
pub proof fn law_missing_filename(tokens: Seq<Seq<char>>)
    requires
        tokens.len() >= 1,
        tokens.last() == "-o"@,
        options_only(tokens.drop_last(), 0),
    ensures
        parse_spec(tokens) == Err::<ConfigView, ArgError>(ArgError::MissingFilename),
{
    lemma_trailing_o(tokens, 0, initial_view());
}

/// Once the program is named, every later token is one of its arguments,
/// unchanged, even one that reads as an option.
pub proof fn law_arguments_pass_through(tokens: Seq<Seq<char>>)
    requires
        tokens.len() >= 1,
        !is_option(tokens[0]),
        tokens[0].len() > 0,
    ensures
        parse_spec(tokens) == Ok::<ConfigView, ArgError>(
            ConfigView { program: tokens[0], args: tokens.drop_first(), ..initial_view() },
        ),
{
    assert(tokens.subrange(1, tokens.len() as int) == tokens.drop_first());
}

/// Reads a configuration from the command line `tokens`, which leave out the
/// tool's own name.
pub fn parse_args(tokens: &Vec<String>) -> (r: Result<Config, ArgError>)
    ensures
        match r {
            Ok(c) => parse_spec(texts(tokens@)) == Ok::<ConfigView, ArgError>(c@),
            Err(e) => parse_spec(texts(tokens@)) == Err::<ConfigView, ArgError>(e),
        },
{
    let ghost t = texts(tokens@);
    let flag_p = String::from_str("-p");
    let flag_o = String::from_str("-o");
    let flag_a = String::from_str("-a");
    let mut config = Config {
        posix_format: false,
        output_file: None,
        append: false,
        program: String::new(),
        args: Vec::new(),
    };
    assert(texts(config.args@) =~= Seq::<Seq<char>>::empty());
    let mut i: usize = 0;
    while i < tokens.len()
        invariant
            t == texts(tokens@),
            flag_p@ == "-p"@,
            flag_o@ == "-o"@,
            flag_a@ == "-a"@,
            i <= tokens.len(),
            config.program@.len() == 0,
            texts(config.args@) == Seq::<Seq<char>>::empty(),
            parse_spec(t) == scan(t, i as int, config@),
        decreases tokens.len() - i,
    {
        let token = &tokens[i];
        assert(token@ == t[i as int]);
        if *token == flag_p {
            config.posix_format = true;
        } else if *token == flag_o {
            if i + 1 < tokens.len() {
                config.output_file = Some(tokens[i + 1].clone());
                i = i + 1;
            } else {
                return Err(ArgError::MissingFilename);
            }
        } else if *token == flag_a {
            config.append = true;
        } else {
            config.program = token.clone();
            let mut rest: Vec<String> = Vec::new();
            let mut j: usize = i + 1;
            while j < tokens.len()
                invariant
                    t == texts(tokens@),
                    i < j <= tokens.len(),
                    texts(rest@) == t.subrange(i + 1, j as int),
                decreases tokens.len() - j,
            {
                let tok = tokens[j].clone();
                let ghost before = rest@;
                rest.push(tok);
                assert(tok@ == t[j as int]);
                assert(rest@ == before.push(tok));
                assert(texts(rest@).len() == texts(before).len() + 1);
                assert(texts(rest@) =~= t.subrange(i + 1, j + 1));
                j = j + 1;
            }
            config.args = rest;
            return if config.program.as_str().is_empty() {
                Err(ArgError::NoProgram)
            } else {
                Ok(config)
            };
        }
        i = i + 1;
    }
    if config.program.as_str().is_empty() {
        Err(ArgError::NoProgram)
    } else {
        Ok(config)
    }
}

/// Where a report goes.
#[derive(Clone, Debug)]
pub enum OutputTarget {
    /// Printed on standard output.
    Stdout,
    /// Written to the file at `path`, created if absent, appended to when
    /// `append` holds and truncated first otherwise.
    File { path: String, append: bool },
}

impl Config {
    /// Where the report of this run goes.
    pub fn output_target(&self) -> (r: OutputTarget)
        ensures
            match self.output_file {
                None => r is Stdout,
                Some(f) => match r {
                    OutputTarget::File { path, append } => path@ == f@ && append == self.append,
                    OutputTarget::Stdout => false,
                },
            },
    {
        match &self.output_file {
            None => OutputTarget::Stdout,
            Some(f) => OutputTarget::File { path: f.clone(), append: self.append },
        }
    }

    /// How the report's labels are drawn: styled for standard output, plain
    /// text for a file.
    pub fn report_style(&self) -> (r: ReportStyle)
        ensures
            r == (if self.output_file is Some {
                ReportStyle::Plain
            } else {
                ReportStyle::Styled
            }),
    {
        if self.output_file.is_some() {
            ReportStyle::Plain
        } else {
            ReportStyle::Styled
        }
    }

    /// The report of a run that took `elapsed_nanos` nanoseconds, in this
    /// configuration's layout and in the style of its destination.
    pub fn render_report(&self, elapsed_nanos: u64) -> (r: String)
        ensures
            is_report(
                r@,
                elapsed_nanos as nat,
                self.posix_format,
                if self.output_file is Some {
                    ReportStyle::Plain
                } else {
                    ReportStyle::Styled
                },
            ),
            self.output_file is Some ==> r@ == report_text(
                "real"@,
                "user"@,
                "sys"@,
                elapsed_nanos as nat,
                self.posix_format,
            ),
    {
        format_report(elapsed_nanos, self.posix_format, self.report_style())
    }
}

} // verus!
