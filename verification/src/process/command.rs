//! A process invocation described as a program plus an argument array.
//!
//! There is deliberately no way to express a shell string: anything the user types is carried
//! as a discrete argument, so quoting and metacharacters can never change what gets executed.
use vstd::prelude::*;

use crate::text::{chars_of, is_whitespace, is_ws, string_of, texts};

verus! {

#[derive(Debug, Clone)]
pub struct CommandSpec {
    pub program: String,
    pub args: Vec<String>,
    pub working_directory: Option<String>,
    pub environment: Vec<(String, String)>,
}

impl CommandSpec {
    pub fn new(program: &str) -> (r: Self)
        ensures
            r.program@ == program@,
            r.args@.len() == 0,
            r.working_directory is None,
            r.environment@.len() == 0,
    {
        CommandSpec {
            program: program.to_string(),
            args: Vec::new(),
            working_directory: None,
            environment: Vec::new(),
        }
    }

    pub fn arg(self, value: &str) -> (r: Self)
        ensures
            r.program == self.program,
            texts(r.args@) == texts(self.args@).push(value@),
            r.working_directory == self.working_directory,
            r.environment == self.environment,
    {
        let mut spec = self;
        let ghost before = spec.args@;
        spec.args.push(value.to_string());
        proof {
            crate::text::lemma_texts_push(before, spec.args@.last());
        }
        spec
    }

    pub fn args(self, values: &[&str]) -> (r: Self)
        ensures
            r.program == self.program,
            texts(r.args@) == texts(self.args@) + values@.map_values(|v: &str| v@),
            r.working_directory == self.working_directory,
            r.environment == self.environment,
    {
        let mut spec = self;
        let ghost start = texts(spec.args@);
        let mut i: usize = 0;
        while i < values.len()
            invariant
                i <= values@.len(),
                texts(spec.args@) == start + values@.take(i as int).map_values(|v: &str| v@),
                spec.program == self.program,
                spec.working_directory == self.working_directory,
                spec.environment == self.environment,
            decreases values.len() - i,
        {
            let ghost before = spec.args@;
            spec.args.push(values[i].to_string());
            proof {
                crate::text::lemma_texts_push(before, spec.args@.last());
            }
            assert(values@.take(i + 1).map_values(|v: &str| v@) =~= values@.take(i as int).map_values(
                |v: &str| v@,
            ).push(values@[i as int]@));
            i += 1;
        }
        assert(values@.take(values@.len() as int) =~= values@);
        spec
    }

    pub fn current_dir(self, directory: &str) -> (r: Self)
        ensures
            r.program == self.program,
            r.args == self.args,
            r.working_directory matches Some(d) && d@ == directory@,
            r.environment == self.environment,
    {
        let mut spec = self;
        spec.working_directory = Some(directory.to_string());
        spec
    }

    pub fn env(self, key: &str, value: &str) -> (r: Self)
        ensures
            r.program == self.program,
            r.args == self.args,
            r.working_directory == self.working_directory,
            r.environment@.len() == self.environment@.len() + 1,
            forall|i: int|
                0 <= i < self.environment@.len() ==> r.environment@[i] == self.environment@[i],
            r.environment@.last().0@ == key@,
            r.environment@.last().1@ == value@,
    {
        let mut spec = self;
        spec.environment.push((key.to_string(), value.to_string()));
        spec
    }

    pub fn program_display(&self) -> (r: String)
        ensures
            r@ == self.program@,
    {
        self.program.clone()
    }

    pub fn args_display(&self) -> (r: Vec<String>)
        ensures
            texts(r@) == texts(self.args@),
    {
        let mut out: Vec<String> = Vec::new();
        let mut i: usize = 0;
        while i < self.args.len()
            invariant
                i <= self.args@.len(),
                texts(out@) == texts(self.args@).take(i as int),
            decreases self.args.len() - i,
        {
            let ghost before = out@;
            out.push(self.args[i].clone());
            proof {
                crate::text::lemma_texts_push(before, out@.last());
            }
            assert(texts(self.args@).take(i + 1) =~= texts(self.args@).take(i as int).push(
                self.args@[i as int]@,
            ));
            i += 1;
        }
        assert(texts(self.args@).take(self.args@.len() as int) =~= texts(self.args@));
        out
    }

    /// Human-readable rendering for logs and the command preview; never used for execution.
    pub fn to_display_string(&self) -> (r: String)
        ensures
            r@ == display_string(self.program@, texts(self.args@)),
    {
        let mut rendered = chars_of(quote_for_display(self.program.as_str()).as_str());
        let mut i: usize = 0;
        assert(texts(self.args@).take(0) =~= Seq::<Seq<char>>::empty());
        while i < self.args.len()
            invariant
                i <= self.args@.len(),
                rendered@ == display_string(self.program@, texts(self.args@).take(i as int)),
            decreases self.args.len() - i,
        {
            rendered.push(' ');
            let q = chars_of(quote_for_display(self.args[i].as_str()).as_str());
            crate::text::append_chars(&mut rendered, q.as_slice());
            let ghost t = texts(self.args@).take(i + 1);
            assert(t.drop_last() =~= texts(self.args@).take(i as int));
            assert(t.last() == self.args@[i as int]@);
            i += 1;
        }
        assert(texts(self.args@).take(self.args@.len() as int) =~= texts(self.args@));
        string_of(rendered.as_slice())
    }
}

/// Characters that make a value ambiguous in a rendered command line: whitespace and quotes.
pub open spec fn needs_quotes(v: Seq<char>) -> bool {
    exists|k: int| 0 <= k < v.len() && (is_ws(#[trigger] v[k]) || v[k] == '"' || v[k] == '\'')
}

/// The value with each double quote escaped by a backslash.
pub open spec fn escape_quotes(v: Seq<char>) -> Seq<char>
    decreases v.len(),
{
    if v.len() == 0 {
        Seq::empty()
    } else {
        escape_quotes(v.drop_last()) + if v.last() == '"' {
            seq!['\\', '"']
        } else {
            seq![v.last()]
        }
    }
}

/// How one value is shown: `""` when empty, in double quotes (inner quotes escaped) when it
/// holds whitespace or a quote, else as it is.
pub open spec fn quoted(v: Seq<char>) -> Seq<char> {
    if v.len() == 0 {
        seq!['"', '"']
    } else if needs_quotes(v) {
        seq!['"'] + escape_quotes(v) + seq!['"']
    } else {
        v
    }
}

/// The program and its arguments, each shown as `quoted` says, separated by single spaces.
pub open spec fn display_string(program: Seq<char>, args: Seq<Seq<char>>) -> Seq<char>
    decreases args.len(),
{
    if args.len() == 0 {
        quoted(program)
    } else {
        display_string(program, args.drop_last()) + seq![' '] + quoted(args.last())
    }
}

pub fn quote_for_display(value: &str) -> (r: String)
    ensures
        r@ == quoted(value@),
{
    let v = chars_of(value);
    if v.len() == 0 {
        let e = vec!['"', '"'];
        assert(e@ =~= seq!['"', '"']);
        return string_of(e.as_slice());
    }
    let mut needs = false;
    let mut escaped: Vec<char> = Vec::new();
    let mut i: usize = 0;
    assert(v@.take(0) =~= Seq::<char>::empty());
    while i < v.len()
        invariant
            i <= v@.len(),
            escaped@ == escape_quotes(v@.take(i as int)),
            needs == exists|k: int| 0 <= k < i && (is_ws(#[trigger] v@[k]) || v@[k] == '"' || v@[k] == '\''),
        decreases v.len() - i,
    {
        let c = v[i];
        if is_whitespace(c) || c == '"' || c == '\'' {
            needs = true;
        }
        assert(v@.take(i + 1).drop_last() =~= v@.take(i as int));
        assert(v@.take(i + 1).last() == c);
        if c == '"' {
            escaped.push('\\');
            escaped.push('"');
        } else {
            escaped.push(c);
        }
        assert(escaped@ =~= escape_quotes(v@.take(i + 1)));
        i += 1;
    }
    assert(v@.take(v@.len() as int) =~= v@);
    if needs {
        let mut out: Vec<char> = Vec::new();
        out.push('"');
        crate::text::append_chars(&mut out, escaped.as_slice());
        out.push('"');
        assert(out@ =~= seq!['"'] + escape_quotes(v@) + seq!['"']);
        string_of(out.as_slice())
    } else {
        value.to_string()
    }
}

} // verus!
