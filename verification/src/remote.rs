//! Core of the remote-execution engine: what is computed around one run
//! of a provisioning script over SSH.
//!
//! The engine's caller opens the session, spawns the script, drains the
//! two output streams and watches the clock; this module decides what
//! those observations mean. It composes the exact command line (with
//! every caller-controlled argument shell-quoted), extracts the
//! credential payload from the marked standard-output lines, and turns
//! the way the run ended into the distinct error conditions the
//! consumers act on.
use vstd::prelude::*;

use crate::text::{dec_int, push_bytes, push_dec_i64, has_prefix, starts_with};

verus! {

/// The marker that prefixes credential payload lines: `[KUBECONFIG] `.
pub open spec fn marker() -> Seq<u8> {
    seq![
        0x5bu8, 0x4b, 0x55, 0x42, 0x45, 0x43, 0x4f, 0x4e, 0x46, 0x49, 0x47, 0x5d, 0x20,
    ]
}

/// The marker as bytes, for the scanner.
pub fn marker_bytes() -> (r: Vec<u8>)
    ensures
        r@ == marker(),
{
    let mut m: Vec<u8> = Vec::new();
    m.push(0x5b);
    m.push(0x4b);
    m.push(0x55);
    m.push(0x42);
    m.push(0x45);
    m.push(0x43);
    m.push(0x4f);
    m.push(0x4e);
    m.push(0x46);
    m.push(0x49);
    m.push(0x47);
    m.push(0x5d);
    m.push(0x20);
    proof {
        assert(m@ =~= marker());
    }
    m
}

/// The payload a line contributes: the rest of the line when it begins
/// with the marker, nothing otherwise.
pub open spec fn marked_payload(line: Seq<u8>) -> Option<Seq<u8>> {
    if starts_with(line, marker()) {
        Some(line.skip(marker().len() as int))
    } else {
        None
    }
}

/// The payload fragments of `lines`, in receipt order: the marked lines,
/// stripped of the marker. Unmarked lines contribute nothing.
pub open spec fn extracted(lines: Seq<Seq<u8>>) -> Seq<Seq<u8>>
    decreases lines.len(),
{
    if lines.len() == 0 {
        Seq::empty()
    } else {
        (match marked_payload(lines[0]) {
            Some(p) => seq![p],
            None => Seq::empty(),
        }) + extracted(lines.skip(1))
    }
}

/// `lines` joined with single newline separators.
pub open spec fn joined(lines: Seq<Seq<u8>>) -> Seq<u8>
    decreases lines.len(),
{
    if lines.len() == 0 {
        Seq::empty()
    } else if lines.len() == 1 {
        lines[0]
    } else {
        lines[0] + seq![0x0au8] + joined(lines.skip(1))
    }
}

proof fn lemma_extracted_snoc(lines: Seq<Seq<u8>>)
    requires
        lines.len() > 0,
    ensures
        extracted(lines) == extracted(lines.drop_last()) + (match marked_payload(lines.last()) {
            Some(p) => seq![p],
            None => Seq::<Seq<u8>>::empty(),
        }),
    decreases lines.len(),
{
    if lines.len() == 1 {
        assert(lines.skip(1) =~= Seq::<Seq<u8>>::empty());
        assert(lines.drop_last() =~= Seq::<Seq<u8>>::empty());
        assert(extracted(lines) =~= extracted(lines.drop_last()) + (match marked_payload(
            lines.last(),
        ) {
            Some(p) => seq![p],
            None => Seq::<Seq<u8>>::empty(),
        }));
    } else {
        lemma_extracted_snoc(lines.skip(1));
        assert(lines.skip(1).drop_last() =~= lines.drop_last().skip(1));
        assert(lines.skip(1).last() == lines.last());
        assert(lines.drop_last()[0] == lines[0]);
        assert(extracted(lines) =~= extracted(lines.drop_last()) + (match marked_payload(
            lines.last(),
        ) {
            Some(p) => seq![p],
            None => Seq::<Seq<u8>>::empty(),
        }));
    }
}

proof fn lemma_joined_snoc(lines: Seq<Seq<u8>>)
    requires
        lines.len() >= 2,
    ensures
        joined(lines) == joined(lines.drop_last()) + seq![0x0au8] + lines.last(),
    decreases lines.len(),
{
    if lines.len() == 2 {
        assert(lines.skip(1) =~= seq![lines[1]]);
        assert(lines.drop_last() =~= seq![lines[0]]);
        assert(joined(seq![lines[1]]) == lines[1]);
        assert(joined(seq![lines[0]]) == lines[0]);
        assert(joined(lines) =~= joined(lines.drop_last()) + seq![0x0au8] + lines.last());
    } else {
        lemma_joined_snoc(lines.skip(1));
        assert(lines.skip(1).drop_last() =~= lines.drop_last().skip(1));
        assert(lines.skip(1).last() == lines.last());
        assert(lines.drop_last()[0] == lines[0]);
        assert(joined(lines) =~= joined(lines.drop_last()) + seq![0x0au8] + lines.last());
    }
}

/// What one byte becomes inside a single-quoted shell word: a quote is
/// closed, escaped and reopened (`'\''`); every other byte stands as is.
pub open spec fn quote_piece(b: u8) -> Seq<u8> {
    if b == 0x27 {
        seq![0x27u8, 0x5c, 0x27, 0x27]
    } else {
        seq![b]
    }
}

/// `s` with every single quote escaped for use inside shell quotes.
pub open spec fn quote_escaped(s: Seq<u8>) -> Seq<u8>
    decreases s.len(),
{
    if s.len() == 0 {
        Seq::empty()
    } else {
        quote_piece(s[0]) + quote_escaped(s.skip(1))
    }
}

/// `s` as one single-quoted shell word. Quoting caller-controlled
/// arguments this way is a required part of the execution contract:
/// an unquoted cluster name would be a command-injection hazard.
pub open spec fn shell_quoted(s: Seq<u8>) -> Seq<u8> {
    seq![0x27u8] + quote_escaped(s) + seq![0x27u8]
}

proof fn lemma_quote_escaped_snoc(s: Seq<u8>)
    requires
        s.len() > 0,
    ensures
        quote_escaped(s) == quote_escaped(s.drop_last()) + quote_piece(s.last()),
    decreases s.len(),
{
    if s.len() == 1 {
        assert(s.skip(1) =~= Seq::<u8>::empty());
        assert(s.drop_last() =~= Seq::<u8>::empty());
        assert(quote_escaped(s) =~= quote_escaped(s.drop_last()) + quote_piece(s.last()));
    } else {
        lemma_quote_escaped_snoc(s.skip(1));
        assert(s.skip(1).drop_last() =~= s.drop_last().skip(1));
        assert(s.skip(1).last() == s.last());
        assert(s.drop_last()[0] == s[0]);
        assert(quote_escaped(s) =~= quote_escaped(s.drop_last()) + quote_piece(s.last()));
    }
}

/// Appends `s` to `out` as one single-quoted shell word.
pub fn push_quoted(out: &mut Vec<u8>, s: &Vec<u8>)
    ensures
        final(out)@ == old(out)@ + shell_quoted(s@),
{
    out.push(0x27);
    let mut i: usize = 0;
    while i < s.len()
        invariant
            i <= s@.len(),
            out@ == old(out)@ + seq![0x27u8] + quote_escaped(s@.take(i as int)),
        decreases s@.len() - i,
    {
        if s[i] == 0x27 {
            out.push(0x27);
            out.push(0x5c);
            out.push(0x27);
            out.push(0x27);
        } else {
            out.push(s[i]);
        }
        i += 1;
        proof {
            let now = s@.take(i as int);
            assert(now.drop_last() =~= s@.take(i - 1));
            assert(now.last() == s@[i - 1]);
            lemma_quote_escaped_snoc(now);
            assert(out@ =~= old(out)@ + seq![0x27u8] + quote_escaped(now));
        }
    }
    out.push(0x27);
    proof {
        assert(s@.take(s@.len() as int) =~= s@);
        assert(out@ =~= old(out)@ + shell_quoted(s@));
    }
}

/// The command line that creates a cluster:
/// `bash <script> -n '<name>' -c <cpus> -m '<mem>g' -d '<disk>g'`,
/// with the caller-controlled name and sizes shell-quoted.
pub open spec fn create_command(
    script: Seq<u8>,
    name: Seq<u8>,
    cpus: int,
    mem_gib: int,
    disk_gib: int,
) -> Seq<u8> {
    seq![0x62u8, 0x61, 0x73, 0x68, 0x20] + script + seq![0x20u8, 0x2d, 0x6e, 0x20]
        + shell_quoted(name) + seq![0x20u8, 0x2d, 0x63, 0x20] + dec_int(cpus)
        + seq![0x20u8, 0x2d, 0x6d, 0x20] + shell_quoted(dec_int(mem_gib).push(0x67))
        + seq![0x20u8, 0x2d, 0x64, 0x20] + shell_quoted(dec_int(disk_gib).push(0x67))
}

/// The command line that tears a cluster down:
/// `bash <script> '<cluster id>'`, the identifier shell-quoted.
pub open spec fn delete_command(script: Seq<u8>, cluster_id: Seq<u8>) -> Seq<u8> {
    seq![0x62u8, 0x61, 0x73, 0x68, 0x20] + script + seq![0x20u8] + shell_quoted(cluster_id)
}

/// Composes the creation command for the given script and sizing.
pub fn compose_create_command(
    script: &Vec<u8>,
    name: &Vec<u8>,
    cpus: i64,
    mem_gib: i64,
    disk_gib: i64,
) -> (r: Vec<u8>)
    ensures
        r@ == create_command(script@, name@, cpus as int, mem_gib as int, disk_gib as int),
{
    let mut out: Vec<u8> = Vec::new();
    out.push(0x62);
    out.push(0x61);
    out.push(0x73);
    out.push(0x68);
    out.push(0x20);
    push_bytes(&mut out, script);
    out.push(0x20);
    out.push(0x2d);
    out.push(0x6e);
    out.push(0x20);
    push_quoted(&mut out, name);
    out.push(0x20);
    out.push(0x2d);
    out.push(0x63);
    out.push(0x20);
    push_dec_i64(&mut out, cpus);
    out.push(0x20);
    out.push(0x2d);
    out.push(0x6d);
    out.push(0x20);
    let mut mem: Vec<u8> = Vec::new();
    push_dec_i64(&mut mem, mem_gib);
    mem.push(0x67);
    push_quoted(&mut out, &mem);
    out.push(0x20);
    out.push(0x2d);
    out.push(0x64);
    out.push(0x20);
    let mut disk: Vec<u8> = Vec::new();
    push_dec_i64(&mut disk, disk_gib);
    disk.push(0x67);
    push_quoted(&mut out, &disk);
    proof {
        assert(out@ =~= create_command(
            script@,
            name@,
            cpus as int,
            mem_gib as int,
            disk_gib as int,
        ));
    }
    out
}

/// Composes the deletion command for the given script and cluster.
pub fn compose_delete_command(script: &Vec<u8>, cluster_id: &Vec<u8>) -> (r: Vec<u8>)
    ensures
        r@ == delete_command(script@, cluster_id@),
{
    let mut out: Vec<u8> = Vec::new();
    out.push(0x62);
    out.push(0x61);
    out.push(0x73);
    out.push(0x68);
    out.push(0x20);
    push_bytes(&mut out, script);
    out.push(0x20);
    push_quoted(&mut out, cluster_id);
    proof {
        assert(out@ =~= delete_command(script@, cluster_id@));
    }
    out
}

/// How one remote run ended, as the engine's driver observed it.
#[derive(Clone, Copy, Debug, PartialEq, Eq, Structural)]
pub enum SessionEnding {
    /// The SSH session could not be established.
    ConnectFailed,
    /// The session stood but the script could not be spawned.
    SpawnFailed,
    /// An output stream of the spawned process could not be captured.
    CaptureFailed,
    /// The overall timeout fired before the run completed.
    TimedOut,
    /// The process's exit status could not be obtained.
    WaitFailed,
    /// The process exited with this status code.
    Exited { code: i32 },
}

/// Why a remote run failed. Each of the conditions of
/// [`SessionEnding`], and an exit-status failure, is distinct; a run
/// that exits cleanly but yields no payload fails too, since a cluster
/// without captured credentials is unusable.
#[derive(Clone, Copy, Debug, PartialEq, Eq, Structural)]
pub enum ExecError {
    /// The SSH session could not be established.
    ConnectFailed,
    /// The script could not be spawned.
    SpawnFailed,
    /// An output stream could not be captured.
    CaptureFailed,
    /// The run exceeded the overall timeout.
    TimedOut,
    /// The exit status could not be obtained.
    WaitFailed,
    /// The script exited with this non-zero status code.
    ScriptFailed { code: i32 },
    /// The script succeeded but no payload line was captured.
    EmptyPayload,
}

/// What a run that produced `lines` and ended as `ending` returns:
/// the extracted payload joined with newlines on a clean exit with at
/// least one marked line, and otherwise the error distinct to the way
/// it ended.
pub open spec fn conclusion(lines: Seq<Seq<u8>>, ending: SessionEnding) -> Result<
    Seq<u8>,
    ExecError,
> {
    match ending {
        SessionEnding::ConnectFailed => Err(ExecError::ConnectFailed),
        SessionEnding::SpawnFailed => Err(ExecError::SpawnFailed),
        SessionEnding::CaptureFailed => Err(ExecError::CaptureFailed),
        SessionEnding::TimedOut => Err(ExecError::TimedOut),
        SessionEnding::WaitFailed => Err(ExecError::WaitFailed),
        SessionEnding::Exited { code } => if code != 0 {
            Err(ExecError::ScriptFailed { code })
        } else if extracted(lines).len() == 0 {
            Err(ExecError::EmptyPayload)
        } else {
            Ok(joined(extracted(lines)))
        },
    }
}

/// Turns the observed standard-output lines and ending of one run into
/// the run's result.
pub fn conclude_run(lines: &Vec<Vec<u8>>, ending: SessionEnding) -> (r: Result<Vec<u8>, ExecError>)
    ensures
        match r {
            Ok(p) => conclusion(lines.deep_view(), ending) == Ok::<Seq<u8>, ExecError>(p@),
            Err(e) => conclusion(lines.deep_view(), ending) == Err::<Seq<u8>, ExecError>(e),
        },
{
    match ending {
        SessionEnding::ConnectFailed => Err(ExecError::ConnectFailed),
        SessionEnding::SpawnFailed => Err(ExecError::SpawnFailed),
        SessionEnding::CaptureFailed => Err(ExecError::CaptureFailed),
        SessionEnding::TimedOut => Err(ExecError::TimedOut),
        SessionEnding::WaitFailed => Err(ExecError::WaitFailed),
        SessionEnding::Exited { code } => {
            if code != 0 {
                Err(ExecError::ScriptFailed { code })
            } else {
                let fragments = collect_payload(lines);
                if fragments.len() == 0 {
                    Err(ExecError::EmptyPayload)
                } else {
                    Ok(join_lines(&fragments))
                }
            }
        },
    }
}

/// What a teardown run that ended as `ending` returns: teardown wants
/// no payload, only a clean exit.
pub open spec fn deletion_conclusion(ending: SessionEnding) -> Result<(), ExecError> {
    match ending {
        SessionEnding::ConnectFailed => Err(ExecError::ConnectFailed),
        SessionEnding::SpawnFailed => Err(ExecError::SpawnFailed),
        SessionEnding::CaptureFailed => Err(ExecError::CaptureFailed),
        SessionEnding::TimedOut => Err(ExecError::TimedOut),
        SessionEnding::WaitFailed => Err(ExecError::WaitFailed),
        SessionEnding::Exited { code } => if code != 0 {
            Err(ExecError::ScriptFailed { code })
        } else {
            Ok(())
        },
    }
}

/// Turns the observed ending of one teardown run into its result.
pub fn conclude_deletion_run(ending: SessionEnding) -> (r: Result<(), ExecError>)
    ensures
        r == deletion_conclusion(ending),
{
    match ending {
        SessionEnding::ConnectFailed => Err(ExecError::ConnectFailed),
        SessionEnding::SpawnFailed => Err(ExecError::SpawnFailed),
        SessionEnding::CaptureFailed => Err(ExecError::CaptureFailed),
        SessionEnding::TimedOut => Err(ExecError::TimedOut),
        SessionEnding::WaitFailed => Err(ExecError::WaitFailed),
        SessionEnding::Exited { code } => {
            if code != 0 {
                Err(ExecError::ScriptFailed { code })
            } else {
                Ok(())
            }
        },
    }
}

/// A timed-out run fails with an error distinct from every exit-status
/// failure, whatever output was captured.
pub proof fn lemma_timeout_error_is_distinct(lines: Seq<Seq<u8>>, code: i32)
    requires
        code != 0,
    ensures
        conclusion(lines, SessionEnding::TimedOut) == Err::<Seq<u8>, ExecError>(
            ExecError::TimedOut,
        ),
        conclusion(lines, SessionEnding::TimedOut) != conclusion(
            lines,
            SessionEnding::Exited { code },
        ),
{
}

/// On a clean exit with at least one marked line, the returned payload
/// is exactly the marked lines, stripped of the marker, joined with
/// newlines in receipt order; unmarked lines never appear in it.
pub proof fn lemma_success_payload(lines: Seq<Seq<u8>>)
    requires
        extracted(lines).len() > 0,
    ensures
        conclusion(lines, SessionEnding::Exited { code: 0 }) == Ok::<Seq<u8>, ExecError>(
            joined(extracted(lines)),
        ),
{
}

/// Every fragment of the extracted payload is the marker-stripped
/// remainder of some received line; a line without the marker never
/// contributes one.
pub proof fn lemma_fragments_come_from_marked_lines(lines: Seq<Seq<u8>>, k: int)
    requires
        0 <= k < extracted(lines).len(),
    ensures
        exists|i: int|
            0 <= i < lines.len() && marked_payload(#[trigger] lines[i]) == Some(
                extracted(lines)[k],
            ),
    decreases lines.len(),
{
    match marked_payload(lines[0]) {
        Some(p) => {
            if k == 0 {
                assert(marked_payload(lines[0]) == Some(extracted(lines)[0]));
            } else {
                lemma_fragments_come_from_marked_lines(lines.skip(1), k - 1);
                let i = choose|i: int|
                    0 <= i < lines.skip(1).len() && marked_payload(
                        #[trigger] lines.skip(1)[i],
                    ) == Some(extracted(lines.skip(1))[k - 1]);
                assert(lines.skip(1)[i] == lines[i + 1]);
                assert(marked_payload(lines[i + 1]) == Some(extracted(lines)[k]));
            }
        },
        None => {
            lemma_fragments_come_from_marked_lines(lines.skip(1), k);
            let i = choose|i: int|
                0 <= i < lines.skip(1).len() && marked_payload(#[trigger] lines.skip(1)[i])
                    == Some(extracted(lines.skip(1))[k]);
            assert(lines.skip(1)[i] == lines[i + 1]);
            assert(marked_payload(lines[i + 1]) == Some(extracted(lines)[k]));
        },
    }
}

/// Strips the marker off one line; `None` for an unmarked line.
pub fn strip_marker(line: &Vec<u8>) -> (r: Option<Vec<u8>>)
    ensures
        match r {
            Some(p) => marked_payload(line@) == Some(p@),
            None => marked_payload(line@) is None,
        },
{
    let m = marker_bytes();
    if !has_prefix(line, &m) {
        return None;
    }
    let mut p: Vec<u8> = Vec::new();
    let mut i: usize = m.len();
    while i < line.len()
        invariant
            marker().len() <= i <= line@.len(),
            p@ == line@.subrange(marker().len() as int, i as int),
        decreases line@.len() - i,
    {
        p.push(line[i]);
        i += 1;
        proof {
            assert(p@ =~= line@.subrange(marker().len() as int, i as int));
        }
    }
    proof {
        assert(p@ =~= line@.skip(marker().len() as int));
    }
    Some(p)
}

/// Collects the payload fragments of `lines`: marked lines stripped of
/// the marker, in receipt order; unmarked lines never appear.
pub fn collect_payload(lines: &Vec<Vec<u8>>) -> (r: Vec<Vec<u8>>)
    ensures
        r.deep_view() == extracted(lines.deep_view()),
{
    let mut out: Vec<Vec<u8>> = Vec::new();
    let mut i: usize = 0;
    while i < lines.len()
        invariant
            i <= lines@.len(),
            out.deep_view() == extracted(lines.deep_view().take(i as int)),
        decreases lines@.len() - i,
    {
        let ghost prefix = lines.deep_view().take(i as int);
        let ghost out_before = out.deep_view();
        let line = &lines[i];
        proof {
            assert(lines.deep_view()[i as int] =~= line@);
        }
        match strip_marker(line) {
            Some(p) => {
                proof {
                    assert(p.deep_view() =~= p@);
                }
                out.push(p);
            },
            None => {},
        }
        i += 1;
        proof {
            let now = lines.deep_view().take(i as int);
            assert(now.drop_last() =~= prefix);
            assert(now.last() == lines.deep_view()[i - 1]);
            lemma_extracted_snoc(now);
            match marked_payload(line@) {
                Some(q) => {
                    assert(out.deep_view() =~= out_before.push(q));
                },
                None => {
                    assert(out.deep_view() =~= out_before);
                },
            }
            assert(out.deep_view() =~= extracted(now));
        }
    }
    proof {
        assert(lines.deep_view().take(lines@.len() as int) =~= lines.deep_view());
    }
    out
}

/// Joins `lines` with single newline separators.
pub fn join_lines(lines: &Vec<Vec<u8>>) -> (r: Vec<u8>)
    ensures
        r@ == joined(lines.deep_view()),
{
    let mut out: Vec<u8> = Vec::new();
    let mut i: usize = 0;
    while i < lines.len()
        invariant
            i <= lines@.len(),
            out@ == joined(lines.deep_view().take(i as int)),
        decreases lines@.len() - i,
    {
        if i > 0 {
            out.push(0x0a);
        }
        let line = &lines[i];
        proof {
            assert(lines.deep_view()[i as int] =~= line@);
        }
        push_bytes(&mut out, line);
        i += 1;
        proof {
            let now = lines.deep_view().take(i as int);
            assert(now.drop_last() =~= lines.deep_view().take(i - 1));
            assert(now.last() == lines.deep_view()[i - 1]);
            if i >= 2 {
                lemma_joined_snoc(now);
                assert(out@ =~= joined(now));
            } else {
                assert(now =~= seq![lines.deep_view()[0]]);
                assert(out@ =~= joined(now));
            }
        }
    }
    proof {
        assert(lines.deep_view().take(lines@.len() as int) =~= lines.deep_view());
    }
    out
}

} // verus!
