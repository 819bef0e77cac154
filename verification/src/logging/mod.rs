use vstd::prelude::*;

pub mod loglevel;

pub use loglevel::LogLevel;
use loglevel::level_name;

verus! {

/// `line` without one trailing carriage return.
pub open spec fn strip_cr(line: Seq<char>) -> Seq<char> {
    if line.len() > 0 && line.last() == '\r' {
        line.drop_last()
    } else {
        line
    }
}

/// The lines of `rest`, after the lines `done` and with `current` read of the
/// line being read: a line ends at a newline (a carriage return right before
/// it is dropped); a last line without newline counts when it is not empty.
pub open spec fn lines_from(rest: Seq<char>, done: Seq<Seq<char>>, current: Seq<char>) -> Seq<
    Seq<char>,
>
    decreases rest.len(),
{
    if rest.len() == 0 {
        if current.len() == 0 {
            done
        } else {
            done.push(current)
        }
    } else if rest[0] == '\n' {
        lines_from(rest.drop_first(), done.push(strip_cr(current)), Seq::empty())
    } else {
        lines_from(rest.drop_first(), done, current.push(rest[0]))
    }
}

/// The lines of `text`, as `str::lines` gives them.
pub open spec fn lines(text: Seq<char>) -> Seq<Seq<char>> {
    lines_from(text, Seq::empty(), Seq::empty())
}

/// The characters of each string.
pub open spec fn views(strings: Seq<String>) -> Seq<Seq<char>> {
    strings.map_values(|s: String| s@)
}

/// The line of text a message line is printed as.
pub open spec fn log_line(
    timestamp: Seq<char>,
    thread_name: Seq<char>,
    level: LogLevel,
    logger_name: Seq<char>,
    line: Seq<char>,
) -> Seq<char> {
    "["@ + timestamp + "] ["@ + thread_name + "/"@ + level_name(level) + "] ["@ + logger_name
        + "] "@ + line
}

/// Splits `text` into its lines.
pub fn split_lines(text: &str) -> (res: Vec<String>)
    ensures
        views(res@) == lines(text@),
{
    let n = text.unicode_len();
    let mut res: Vec<String> = Vec::new();
    let mut current = String::new();
    let mut current_len: usize = 0;
    let mut i: usize = 0;
    proof {
        assert(text@.skip(0) =~= text@);
        assert(views(res@) =~= Seq::<Seq<char>>::empty());
    }
    while i < n
        invariant
            n == text@.len(),
            i <= n,
            current_len == current@.len(),
            current_len <= i,
            lines_from(text@.skip(i as int), views(res@), current@) == lines(text@),
        decreases n - i,
    {
        let c = text.get_char(i);
        proof {
            assert(text@.skip(i as int)[0] == c);
            assert(text@.skip(i as int).drop_first() =~= text@.skip(i + 1));
        }
        if c == '\n' {
            let line = if current_len > 0 && current.as_str().get_char(current_len - 1) == '\r' {
                String::from_str(current.as_str().substring_char(0, current_len - 1))
            } else {
                current
            };
            proof {
                assert(line@ =~= strip_cr(current@));
            }
            let ghost before = res@;
            res.push(line);
            proof {
                assert(views(res@) =~= views(before).push(strip_cr(current@)));
            }
            current = String::new();
            current_len = 0;
        } else {
            let one = text.substring_char(i, i + 1);
            proof {
                assert(one@ =~= seq![c]);
            }
            let ghost before = current@;
            current.append(one);
            proof {
                assert(current@ =~= before.push(c));
            }
            current_len = current_len + 1;
        }
        i = i + 1;
    }
    proof {
        assert(text@.skip(n as int) =~= Seq::<char>::empty());
    }
    if current_len > 0 {
        let ghost before = res@;
        res.push(current);
        proof {
            assert(views(res@) =~= views(before).push(current@));
        }
    }
    res
}

/// A named source of log messages.
pub struct Logger {
    name: String,
}

impl Logger {
    /// The name shown with the logger's messages.
    pub closed spec fn spec_name(&self) -> Seq<char> {
        self.name@
    }

    pub fn new(name: String) -> (res: Self)
        ensures
            res.spec_name() == name@,
    {
        Logger { name }
    }

    pub fn new_str(name: &'static str) -> (res: Self)
        ensures
            res.spec_name() == name@,
    {
        Logger { name: String::from_str(name) }
    }

    /// The name shown with the logger's messages.
    pub fn name(&self) -> (res: &str)
        ensures
            res@ == self.spec_name(),
    {
        self.name.as_str()
    }

    /// The text printed for one line of a message of this logger.
    pub fn format_line(&self, level: LogLevel, timestamp: &str, thread_name: &str, line: &str) -> (res:
        String)
        ensures
            res@ == log_line(timestamp@, thread_name@, level, self.spec_name(), line@),
    {
        let mut res = String::from_str("[");
        res.append(timestamp);
        res.append("] [");
        res.append(thread_name);
        res.append("/");
        res.append(level.name());
        res.append("] [");
        res.append(self.name.as_str());
        res.append("] ");
        res.append(line);
        res
    }
}

} // verus!

verus! {

/// Whether `text` starts with `prefix`.
pub open spec fn has_prefix(text: Seq<char>, prefix: Seq<char>) -> bool {
    prefix.len() <= text.len() && text.subrange(0, prefix.len() as int) == prefix
}

/// Whether `text` starts with `prefix`.
pub fn starts_with(text: &str, prefix: &str) -> (res: bool)
    ensures
        res == has_prefix(text@, prefix@),
{
    let n = prefix.unicode_len();
    let m = text.unicode_len();
    if n > m {
        return false;
    }
    let mut i: usize = 0;
    while i < n
        invariant
            n == prefix@.len(),
            m == text@.len(),
            n <= m,
            i <= n,
            forall|j: int| 0 <= j < i ==> text@[j] == prefix@[j],
        decreases n - i,
    {
        if text.get_char(i) != prefix.get_char(i) {
            proof {
                assert(text@.subrange(0, n as int)[i as int] != prefix@[i as int]);
            }
            return false;
        }
        i = i + 1;
    }
    proof {
        assert(text@.subrange(0, n as int) =~= prefix@);
    }
    true
}

/// Modules of other crates whose messages are only forwarded up to the
/// `Info` level.
pub open spec fn info_level_module(module: Seq<char>) -> bool {
    has_prefix(module, "wgpu_hal"@) || has_prefix(module, "wgpu_core"@) || has_prefix(
        module,
        "naga"@,
    )
}

/// Modules of other crates whose messages are never forwarded.
pub open spec fn muted_module(module: Seq<char>) -> bool {
    has_prefix(module, "wgpu_hal"@)
}

/// Whether a message from another crate's module, at `level`, is forwarded
/// to the game's log.
pub open spec fn forwarded(module: Seq<char>, level: LogLevel) -> bool {
    !(info_level_module(module) && (level == LogLevel::Debug || level == LogLevel::Trace))
        && !muted_module(module)
}

/// Whether a message of another crate's module `module` at `level` is
/// forwarded to the game's log.
pub fn should_forward(module: &str, level: LogLevel) -> (res: bool)
    ensures
        res == forwarded(module@, level),
{
    let verbose = match level {
        LogLevel::Debug | LogLevel::Trace => true,
        _ => false,
    };
    if verbose && (starts_with(module, "wgpu_hal") || starts_with(module, "wgpu_core")
        || starts_with(module, "naga")) {
        return false;
    }
    if starts_with(module, "wgpu_hal") {
        return false;
    }
    true
}

/// The text a forwarded message line is logged with.
pub open spec fn forwarded_text(module: Seq<char>, line: Seq<char>) -> Seq<char> {
    "[mod "@ + module + "] "@ + line
}

/// The text a forwarded message line from `module` is logged with.
pub fn format_forwarded(module: &str, line: &str) -> (res: String)
    ensures
        res@ == forwarded_text(module@, line@),
{
    let mut res = String::from_str("[mod ");
    res.append(module);
    res.append("] ");
    res.append(line);
    res
}

/// The name a forwarded message's module is shown with: its path, or
/// `<unknown module>` when the message does not say.
pub fn module_name<'a>(module: Option<&'a str>) -> (res: &'a str)
    ensures
        match module {
            Some(m) => res@ == m@,
            None => res@ == "<unknown module>"@,
        },
{
    match module {
        Some(m) => m,
        None => "<unknown module>",
    }
}

} // verus!

verus! {

proof fn lemma_final_newline(rest: Seq<char>, done: Seq<Seq<char>>, current: Seq<char>)
    requires
        (current + rest).len() > 0,
        (current + rest).last() != '\n',
        (current + rest).last() != '\r',
    ensures
        lines_from(rest.push('\n'), done, current) == lines_from(rest, done, current),
    decreases rest.len(),
{
    let t = current + rest;
    if rest.len() == 0 {
        assert(t =~= current);
        assert(rest.push('\n')[0] == '\n');
        assert(rest.push('\n').drop_first() =~= Seq::<char>::empty());
        assert(strip_cr(current) == current);
        assert(lines_from(Seq::<char>::empty(), done.push(strip_cr(current)), Seq::empty())
            == done.push(strip_cr(current)));
        assert(lines_from(rest.push('\n'), done, current) == lines_from(
            rest.push('\n').drop_first(),
            done.push(strip_cr(current)),
            Seq::empty(),
        ));
    } else {
        assert(rest.push('\n')[0] == rest[0]);
        assert(rest.push('\n').drop_first() =~= rest.drop_first().push('\n'));
        assert(t.last() == rest.last());
        if rest[0] == '\n' {
            assert(rest.len() > 1) by {
                if rest.len() == 1 {
                    assert(t.last() == '\n');
                }
            }
            let t2 = Seq::<char>::empty() + rest.drop_first();
            assert(t2 =~= rest.drop_first());
            assert(rest.drop_first().last() == rest.last());
            lemma_final_newline(rest.drop_first(), done.push(strip_cr(current)), Seq::empty());
        } else {
            let t2 = current.push(rest[0]) + rest.drop_first();
            assert(t2 =~= t);
            lemma_final_newline(rest.drop_first(), done, current.push(rest[0]));
        }
    }
}

/// A final newline does not add a line: a text that does not already end
/// with a line break (nor a carriage return) has the same lines with one
/// more newline at its end.
pub proof fn law_final_line_ending_optional(text: Seq<char>)
    requires
        text.len() > 0,
        text.last() != '\n',
        text.last() != '\r',
    ensures
        lines(text.push('\n')) == lines(text),
{
    assert(Seq::<char>::empty() + text =~= text);
    lemma_final_newline(text, Seq::empty(), Seq::empty());
}

/// Every message of `wgpu_hal` is muted, whatever its level.
pub proof fn law_wgpu_hal_muted(module: Seq<char>, level: LogLevel)
    requires
        has_prefix(module, "wgpu_hal"@),
    ensures
        !forwarded(module, level),
{
}

/// Messages of modules other than the noisy GPU ones are forwarded at every
/// level.
pub proof fn law_other_modules_forwarded(module: Seq<char>, level: LogLevel)
    requires
        !info_level_module(module),
    ensures
        forwarded(module, level),
{
}

/// A module path made of `prefix` and then `rest` starts with `prefix`.
proof fn lemma_has_own_prefix(prefix: Seq<char>, rest: Seq<char>)
    ensures
        has_prefix(prefix + rest, prefix),
{
    assert((prefix + rest).subrange(0, prefix.len() as int) =~= prefix);
}

/// A module path starting with `prefix` is `prefix` and then the rest.
proof fn lemma_prefix_split(module: Seq<char>, prefix: Seq<char>)
    requires
        has_prefix(module, prefix),
    ensures
        module == prefix + module.skip(prefix.len() as int),
{
    assert(module =~= prefix + module.skip(prefix.len() as int));
}

/// A path starting with the first char of `a` does not start with a text
/// whose first char differs.
proof fn lemma_not_prefix(module: Seq<char>, prefix: Seq<char>)
    requires
        module.len() > 0,
        prefix.len() > 0,
        module[0] != prefix[0],
    ensures
        !has_prefix(module, prefix),
{
    if has_prefix(module, prefix) {
        assert(module.subrange(0, prefix.len() as int)[0] == module[0]);
    }
}

/// `wgpu_hal`, `wgpu_core` and `naga` are forced to the `Info` level: their
/// `Debug` and `Trace` messages are dropped, whatever follows the prefix in
/// the module's path; `wgpu_hal` is muted at every level.
pub proof fn law_gpu_modules_capped_at_info(rest: Seq<char>, level: LogLevel)
    ensures
        (level == LogLevel::Debug || level == LogLevel::Trace) ==> !forwarded("wgpu_core"@ + rest, level)
            && !forwarded("naga"@ + rest, level) && !forwarded("wgpu_hal"@ + rest, level),
        !forwarded("wgpu_hal"@ + rest, level),
{
    lemma_has_own_prefix("wgpu_core"@, rest);
    lemma_has_own_prefix("naga"@, rest);
    lemma_has_own_prefix("wgpu_hal"@, rest);
}

/// Messages of `wgpu_core` and `naga` at `Info` or above are forwarded.
pub proof fn law_gpu_modules_forwarded_up_to_info(rest: Seq<char>, level: LogLevel)
    requires
        level != LogLevel::Debug,
        level != LogLevel::Trace,
    ensures
        forwarded("wgpu_core"@ + rest, level),
        forwarded("naga"@ + rest, level),
{
    reveal_strlit("wgpu_core");
    reveal_strlit("naga");
    reveal_strlit("wgpu_hal");
    let core = "wgpu_core"@ + rest;
    let naga = "naga"@ + rest;
    assert("wgpu_core"@ =~= seq!['w', 'g', 'p', 'u', '_', 'c', 'o', 'r', 'e']);
    assert("naga"@ =~= seq!['n', 'a', 'g', 'a']);
    assert("wgpu_hal"@ =~= seq!['w', 'g', 'p', 'u', '_', 'h', 'a', 'l']);
    assert(core[5] == "wgpu_core"@[5]);
    assert(naga[0] == "naga"@[0]);
    lemma_not_prefix(naga, "wgpu_hal"@);
    if has_prefix(core, "wgpu_hal"@) {
        assert(core.subrange(0, 8)[5] == "wgpu_hal"@[5]);
    }
}

/// Every message of any other module is forwarded, at every level.
pub proof fn law_other_modules_forwarded_at_every_level(module: Seq<char>, level: LogLevel)
    requires
        forall|rest: Seq<char>| module != "wgpu_hal"@ + rest && module != "wgpu_core"@ + rest && module
            != "naga"@ + rest,
    ensures
        forwarded(module, level),
{
    if has_prefix(module, "wgpu_hal"@) {
        lemma_prefix_split(module, "wgpu_hal"@);
    }
    if has_prefix(module, "wgpu_core"@) {
        lemma_prefix_split(module, "wgpu_core"@);
    }
    if has_prefix(module, "naga"@) {
        lemma_prefix_split(module, "naga"@);
    }
}

/// Characters with no newline among them just go on the line being read.
proof fn lemma_no_newline_continues(x: Seq<char>, rest: Seq<char>, done: Seq<Seq<char>>, current: Seq<char>)
    requires
        forall|i: int| 0 <= i < x.len() ==> x[i] != '\n',
    ensures
        lines_from(x + rest, done, current) == lines_from(rest, done, current + x),
    decreases x.len(),
{
    if x.len() == 0 {
        assert(x + rest =~= rest);
        assert(current + x =~= current);
    } else {
        assert((x + rest)[0] == x[0]);
        assert((x + rest).drop_first() =~= x.drop_first() + rest);
        lemma_no_newline_continues(x.drop_first(), rest, done, current.push(x[0]));
        assert(current.push(x[0]) + x.drop_first() =~= current + x);
    }
}

/// The lines found before do not change how the rest is split.
proof fn lemma_done_prefix(rest: Seq<char>, done: Seq<Seq<char>>, current: Seq<char>)
    ensures
        lines_from(rest, done, current) == done + lines_from(rest, Seq::empty(), current),
    decreases rest.len(),
{
    if rest.len() == 0 {
        assert(done + Seq::<Seq<char>>::empty() =~= done);
        assert(done + Seq::<Seq<char>>::empty().push(current) =~= done.push(current));
    } else if rest[0] == '\n' {
        lemma_done_prefix(rest.drop_first(), done.push(strip_cr(current)), Seq::empty());
        lemma_done_prefix(rest.drop_first(), Seq::empty().push(strip_cr(current)), Seq::empty());
        assert(done.push(strip_cr(current)) =~= done + Seq::empty().push(strip_cr(current)));
        assert(done + (Seq::empty().push(strip_cr(current)) + lines_from(rest.drop_first(), Seq::empty(), Seq::empty()))
            =~= done.push(strip_cr(current)) + lines_from(rest.drop_first(), Seq::empty(), Seq::empty()));
    } else {
        lemma_done_prefix(rest.drop_first(), done, current.push(rest[0]));
    }
}

/// An empty text has no line; a text with no newline that is not empty is
/// one line, as it is.
pub proof fn law_text_without_newline_is_one_line(text: Seq<char>)
    requires
        forall|i: int| 0 <= i < text.len() ==> text[i] != '\n',
    ensures
        text.len() == 0 ==> lines(text) == Seq::<Seq<char>>::empty(),
        text.len() > 0 ==> lines(text) == seq![text],
{
    lemma_no_newline_continues(text, Seq::empty(), Seq::empty(), Seq::empty());
    assert(text + Seq::<char>::empty() =~= text);
    assert(Seq::<char>::empty() + text =~= text);
}

/// A newline ends a line: the text before it (with no newline in it) is the
/// first line, without a carriage return that ends it, and the lines of the
/// text after the newline follow.
pub proof fn law_newline_ends_line(first: Seq<char>, rest: Seq<char>)
    requires
        forall|i: int| 0 <= i < first.len() ==> first[i] != '\n',
    ensures
        lines(first + seq!['\n'] + rest) == seq![
            if first.len() > 0 && first.last() == '\r' {
                first.drop_last()
            } else {
                first
            },
        ] + lines(rest),
{
    let nl = seq!['\n'] + rest;
    assert(first + seq!['\n'] + rest =~= first + nl);
    lemma_no_newline_continues(first, nl, Seq::empty(), Seq::empty());
    assert(Seq::<char>::empty() + first =~= first);
    assert(nl[0] == '\n');
    assert(nl.drop_first() =~= rest);
    lemma_done_prefix(rest, Seq::empty().push(strip_cr(first)), Seq::empty());
    assert(Seq::<Seq<char>>::empty().push(strip_cr(first)) =~= seq![strip_cr(first)]);
}

/// A printed line reads, from its start: `[`, the timestamp, `] [`, the
/// thread's name, `/`, the level's name, `] [`, the logger's name, `] `, and
/// the message line, which ends it.
pub proof fn law_printed_line_holds_its_parts(
    timestamp: Seq<char>,
    thread_name: Seq<char>,
    level: LogLevel,
    logger_name: Seq<char>,
    line: Seq<char>,
)
    ensures
        ({
            let printed = log_line(timestamp, thread_name, level, logger_name, line);
            let t = 1 + (timestamp.len() as int);
            let h = t + 3 + (thread_name.len() as int);
            let l = h + 1 + (level_name(level).len() as int);
            let g = l + 3 + (logger_name.len() as int);
            &&& printed.len() == g + 2 + (line.len() as int)
            &&& printed.subrange(0, 1) == seq!['[']
            &&& printed.subrange(1, t) == timestamp
            &&& printed.subrange(t, t + 3) == seq![']', ' ', '[']
            &&& printed.subrange(t + 3, h) == thread_name
            &&& printed.subrange(h, h + 1) == seq!['/']
            &&& printed.subrange(h + 1, l) == level_name(level)
            &&& printed.subrange(l, l + 3) == seq![']', ' ', '[']
            &&& printed.subrange(l + 3, g) == logger_name
            &&& printed.subrange(g, g + 2) == seq![']', ' ']
            &&& printed.skip(g + 2) == line
        }),
{
    reveal_strlit("[");
    reveal_strlit("] [");
    reveal_strlit("/");
    reveal_strlit("] ");
    assert("["@ =~= seq!['[']);
    assert("] ["@ =~= seq![']', ' ', '[']);
    assert("/"@ =~= seq!['/']);
    assert("] "@ =~= seq![']', ' ']);
    let printed = log_line(timestamp, thread_name, level, logger_name, line);
    let t = 1 + (timestamp.len() as int);
    let h = t + 3 + (thread_name.len() as int);
    let l = h + 1 + (level_name(level).len() as int);
    let g = l + 3 + (logger_name.len() as int);
    assert(printed.subrange(0, 1) =~= seq!['[']);
    assert(printed.subrange(1, t) =~= timestamp);
    assert(printed.subrange(t, t + 3) =~= seq![']', ' ', '[']);
    assert(printed.subrange(t + 3, h) =~= thread_name);
    assert(printed.subrange(h, h + 1) =~= seq!['/']);
    assert(printed.subrange(h + 1, l) =~= level_name(level));
    assert(printed.subrange(l, l + 3) =~= seq![']', ' ', '[']);
    assert(printed.subrange(l + 3, g) =~= logger_name);
    assert(printed.subrange(g, g + 2) =~= seq![']', ' ']);
    assert(printed.skip(g + 2) =~= line);
}

/// A forwarded line is the message line after `[mod `, the module's path
/// and `] `.
pub proof fn law_forwarded_line_holds_its_parts(module: Seq<char>, line: Seq<char>)
    ensures
        ({
            let text = forwarded_text(module, line);
            &&& text.subrange(0, 5) == seq!['[', 'm', 'o', 'd', ' ']
            &&& text.subrange(5, 5 + (module.len() as int)) == module
            &&& text.subrange(5 + (module.len() as int), 7 + (module.len() as int)) == seq![']', ' ']
            &&& text.skip(7 + (module.len() as int)) == line
        }),
{
    reveal_strlit("[mod ");
    reveal_strlit("] ");
    assert("[mod "@ =~= seq!['[', 'm', 'o', 'd', ' ']);
    assert("] "@ =~= seq![']', ' ']);
    let text = forwarded_text(module, line);
    assert(text.subrange(0, 5) =~= seq!['[', 'm', 'o', 'd', ' ']);
    assert(text.subrange(5, 5 + (module.len() as int)) =~= module);
    assert(text.subrange(5 + (module.len() as int), 7 + (module.len() as int)) =~= seq![']', ' ']);
    assert(text.skip(7 + (module.len() as int)) =~= line);
}

} // verus!
