//! How unit files are read: their sections, their settings, and the words of a
//! setting.

use vstd::prelude::*;

use super::product::{
    application_socket_name, argument_words, binary_ok, destinations, device_lines, escaped,
    escaped_char, group_text, hardening_text, identifier, identifier_char, lists_path,
    management_socket_name, mode_text, network_text, path_list, quoted, quoted_list, service_name,
    service_unit, socket_dependencies, socket_file, socket_ok, socket_path, socket_unit,
    unsafe_text, unsafe_unit_char, writable_words, ManagedProduct, ManagedProductOptions,
    ServiceHardening, SocketOptions,
};
use super::unit_text::lemma_confined_paths;
use crate::command_reading::{
    lemma_option_values_concat, lemma_option_values_same, option_values,
};
use crate::duration::NANOS_PER_SECOND;
use crate::search::lemma_none_failing;
use crate::text;
use crate::text::texts;
use crate::unix_path;
use crate::unix_path::path;

verus! {

// ---------------------------------------------------------------------------
// Reading sections and settings
// ---------------------------------------------------------------------------

/// Whether a line names a section.
pub open spec fn is_header(line: Seq<char>) -> bool {
    line.len() > 0 && line[0] == '['
}

/// The line that names the section in which the lines end.
pub open spec fn section_of(lines: Seq<Seq<char>>) -> Seq<char>
    decreases lines.len(),
{
    if lines.len() == 0 {
        Seq::empty()
    } else if is_header(lines.last()) {
        lines.last()
    } else {
        section_of(lines.drop_last())
    }
}

/// The key of a setting: what stands before its first equals sign.
pub open spec fn key_of(line: Seq<char>) -> Seq<char> {
    text::split(line, '=')[0]
}

/// The settings that lines have in a section, in their order.
pub open spec fn settings_in(lines: Seq<Seq<char>>, header: Seq<char>) -> Seq<
    (Seq<char>, Seq<char>),
>
    decreases lines.len(),
{
    if lines.len() == 0 {
        Seq::empty()
    } else {
        let before = settings_in(lines.drop_last(), header);
        let line = lines.last();
        if !is_header(line) && line.contains('=') && section_of(lines.drop_last()) == header {
            before.push((key_of(line), line.skip(key_of(line).len() as int + 1)))
        } else {
            before
        }
    }
}

/// The settings that a unit file has in a section, in their order.
pub open spec fn read_section(file: Seq<char>, header: Seq<char>) -> Seq<(Seq<char>, Seq<char>)> {
    settings_in(text::split(file, '\n'), header)
}

/// The values that a unit file gives a setting of a section, in their order.
pub open spec fn read_values(file: Seq<char>, header: Seq<char>, key: Seq<char>) -> Seq<Seq<char>> {
    option_values(read_section(file, header), key)
}

// ---------------------------------------------------------------------------
// Reading words
// ---------------------------------------------------------------------------

/// A quoted word up to its closing quote, and what follows that: a backslash
/// stands before a character that is taken as it is.
pub open spec fn read_quoted(s: Seq<char>) -> Option<(Seq<char>, Seq<char>)>
    decreases s.len(),
{
    if s.len() == 0 {
        None
    } else if s[0] == '"' {
        Some((Seq::empty(), s.skip(1)))
    } else if s[0] == '\\' && s.len() >= 2 {
        match read_quoted(s.skip(2)) {
            Some((word, rest)) => Some((seq![s[1]] + word, rest)),
            None => None,
        }
    } else {
        match read_quoted(s.skip(1)) {
            Some((word, rest)) => Some((seq![s[0]] + word, rest)),
            None => None,
        }
    }
}

/// A plain word up to the next space, and what follows it.
pub open spec fn read_plain(s: Seq<char>) -> (Seq<char>, Seq<char>)
    decreases s.len(),
{
    if s.len() == 0 || s[0] == ' ' {
        (Seq::empty(), s)
    } else {
        let rest = read_plain(s.skip(1));
        (seq![s[0]] + rest.0, rest.1)
    }
}

/// The words of a setting, in which a word may be quoted; `None` where a quote
/// is not closed.
pub open spec fn unit_words(s: Seq<char>) -> Option<Seq<Seq<char>>>
    decreases s.len(),
{
    if s.len() == 0 {
        Some(Seq::empty())
    } else if s[0] == ' ' {
        unit_words(s.skip(1))
    } else if s[0] == '"' {
        match read_quoted(s.skip(1)) {
            Some((word, rest)) => if rest.len() < s.len() {
                match unit_words(rest) {
                    Some(words) => Some(seq![word] + words),
                    None => None,
                }
            } else {
                None
            },
            None => None,
        }
    } else {
        let (word, rest) = read_plain(s);
        if rest.len() < s.len() {
            match unit_words(rest) {
                Some(words) => Some(seq![word] + words),
                None => None,
            }
        } else {
            None
        }
    }
}

proof fn lemma_escaped_front(s: Seq<char>)
    requires
        s.len() > 0,
    ensures
        escaped(s) == escaped_char(s[0]) + escaped(s.skip(1)),
    decreases s.len(),
{
    if s.len() == 1 {
        assert(s.drop_last() =~= Seq::empty());
        assert(s.skip(1) =~= Seq::empty());
        assert(escaped(s) =~= escaped_char(s[0]) + escaped(s.skip(1)));
    } else {
        let front = s.drop_last();
        lemma_escaped_front(front);
        assert(front.skip(1) =~= s.skip(1).drop_last());
        assert(s.skip(1).last() == s.last());
        assert(escaped(s) =~= escaped_char(s[0]) + escaped(s.skip(1)));
    }
}

proof fn lemma_read_quoted(s: Seq<char>, rest: Seq<char>)
    ensures
        read_quoted(escaped(s) + seq!['"'] + rest) == Some((s, rest)),
    decreases s.len(),
{
    let whole = escaped(s) + seq!['"'] + rest;
    if s.len() == 0 {
        assert(whole =~= seq!['"'] + rest);
        assert(whole.skip(1) =~= rest);
        assert(s =~= Seq::empty());
    } else {
        lemma_escaped_front(s);
        let tail = s.skip(1);
        lemma_read_quoted(tail, rest);
        let next = escaped(tail) + seq!['"'] + rest;
        assert(seq![s[0]] + tail =~= s);
        if s[0] == '\\' || s[0] == '"' {
            assert(whole =~= seq!['\\', s[0]] + next);
            assert(whole.skip(2) =~= next);
        } else {
            assert(whole =~= seq![s[0]] + next);
            assert(whole.skip(1) =~= next);
        }
    }
}

/// A quoted word is read as the text that was quoted.
proof fn lemma_read_word(s: Seq<char>, rest: Seq<char>, words: Seq<Seq<char>>)
    requires
        unit_words(rest) == Some(words),
    ensures
        unit_words(quoted(s) + rest) == Some(seq![s] + words),
{
    let whole = quoted(s) + rest;
    assert(whole.skip(1) =~= escaped(s) + seq!['"'] + rest);
    lemma_read_quoted(s, rest);
}

proof fn lemma_space_before(rest: Seq<char>)
    ensures
        unit_words(" "@ + rest) == unit_words(rest),
{
    reveal_strlit(" ");
    assert((" "@ + rest).skip(1) =~= rest);
}

proof fn lemma_argument_words_front(arguments: Seq<String>)
    requires
        arguments.len() > 0,
    ensures
        argument_words(arguments) == " "@ + quoted(arguments[0]@) + argument_words(
            arguments.skip(1),
        ),
    decreases arguments.len(),
{
    if arguments.len() == 1 {
        assert(arguments.drop_last() =~= Seq::empty());
        assert(arguments.skip(1) =~= Seq::empty());
        assert(argument_words(arguments) =~= " "@ + quoted(arguments[0]@) + argument_words(
            arguments.skip(1),
        ));
    } else {
        let front = arguments.drop_last();
        lemma_argument_words_front(front);
        assert(front.skip(1) =~= arguments.skip(1).drop_last());
        assert(argument_words(arguments) =~= " "@ + quoted(arguments[0]@) + argument_words(
            arguments.skip(1),
        ));
    }
}

proof fn lemma_read_arguments(arguments: Seq<String>)
    ensures
        unit_words(argument_words(arguments)) == Some(texts(arguments)),
    decreases arguments.len(),
{
    if arguments.len() == 0 {
        assert(texts(arguments) =~= Seq::empty());
    } else {
        let tail = arguments.skip(1);
        lemma_argument_words_front(arguments);
        lemma_read_arguments(tail);
        lemma_read_word(arguments[0]@, argument_words(tail), texts(tail));
        lemma_space_before(quoted(arguments[0]@) + argument_words(tail));
        assert(argument_words(arguments) =~= " "@ + (quoted(arguments[0]@) + argument_words(tail)));
        assert(seq![arguments[0]@] + texts(tail) =~= texts(arguments));
    }
}

/// Quoted words with spaces between them are read as the texts that were quoted.
proof fn lemma_read_list(list: Seq<Seq<char>>, rest: Seq<char>, words: Seq<Seq<char>>)
    requires
        unit_words(rest) == Some(words),
    ensures
        unit_words(text::joined(list.map_values(|s: Seq<char>| quoted(s)), " "@) + rest) == Some(
            list + words,
        ),
    decreases list.len(),
{
    let all = list.map_values(|s: Seq<char>| quoted(s));
    if list.len() == 0 {
        assert(text::joined(all, " "@) + rest =~= rest);
        assert(list + words =~= words);
    } else {
        let last = list.last();
        let front = list.drop_last();
        lemma_read_word(last, rest, words);
        let behind = quoted(last) + rest;
        assert(all.drop_last() =~= front.map_values(|s: Seq<char>| quoted(s)));
        if list.len() == 1 {
            assert(text::joined(all, " "@) =~= quoted(last));
            assert(list + words =~= seq![last] + words);
        } else {
            lemma_space_before(behind);
            lemma_read_list(front, " "@ + behind, seq![last] + words);
            assert(text::joined(all, " "@) + rest =~= text::joined(all.drop_last(), " "@) + (" "@
                + behind));
            assert(front + (seq![last] + words) =~= list + words);
        }
    }
}

// ---------------------------------------------------------------------------
// The sections of the files
// ---------------------------------------------------------------------------

/// A setting as a line.
spec fn line_of(s: (Seq<char>, Seq<char>)) -> Seq<char> {
    s.0 + "="@ + s.1
}

/// One line for each setting.
spec fn lines_of(settings: Seq<(Seq<char>, Seq<char>)>) -> Seq<char>
    decreases settings.len(),
{
    if settings.len() == 0 {
        Seq::empty()
    } else {
        lines_of(settings.drop_last()) + (line_of(settings.last()) + "\n"@)
    }
}

proof fn lemma_lines_push(settings: Seq<(Seq<char>, Seq<char>)>, s: (Seq<char>, Seq<char>))
    ensures
        lines_of(settings.push(s)) == lines_of(settings) + (line_of(s) + "\n"@),
{
    assert(settings.push(s).drop_last() =~= settings);
}

proof fn lemma_lines_concat(a: Seq<(Seq<char>, Seq<char>)>, b: Seq<(Seq<char>, Seq<char>)>)
    ensures
        lines_of(a + b) == lines_of(a) + lines_of(b),
    decreases b.len(),
{
    if b.len() == 0 {
        assert(a + b =~= a);
        assert(lines_of(a) + lines_of(b) =~= lines_of(a));
    } else {
        assert((a + b).drop_last() =~= a + b.drop_last());
        lemma_lines_concat(a, b.drop_last());
        assert(lines_of(a + b) =~= lines_of(a) + lines_of(b));
    }
}

/// The settings that every strictly confined service has.
spec fn strict_settings() -> Seq<(Seq<char>, Seq<char>)> {
    seq![
        ("NoNewPrivileges"@, "yes"@),
        ("PrivateTmp"@, "yes"@),
        ("ProtectClock"@, "yes"@),
        ("ProtectControlGroups"@, "yes"@),
        ("ProtectHome"@, "read-only"@),
        ("ProtectKernelLogs"@, "yes"@),
        ("ProtectKernelModules"@, "yes"@),
        ("ProtectKernelTunables"@, "yes"@),
        ("ProtectSystem"@, "strict"@),
        ("DevicePolicy"@, "closed"@),
        ("RestrictRealtime"@, "yes"@),
        ("RestrictSUIDSGID"@, "yes"@),
        ("LockPersonality"@, "yes"@),
        ("MemoryDenyWriteExecute"@, "yes"@),
        ("LimitCORE"@, "0"@),
        ("LimitMEMLOCK"@, "65536"@),
    ]
}

#[verifier::spinoff_prover]
#[verifier::rlimit(60)]
proof fn lemma_strict_settings()
    ensures
        "NoNewPrivileges=yes\n\
             PrivateTmp=yes\n\
             ProtectClock=yes\n\
             ProtectControlGroups=yes\n\
             ProtectHome=read-only\n\
             ProtectKernelLogs=yes\n\
             ProtectKernelModules=yes\n\
             ProtectKernelTunables=yes\n\
             ProtectSystem=strict\n\
             DevicePolicy=closed\n\
             RestrictRealtime=yes\n\
             RestrictSUIDSGID=yes\n\
             LockPersonality=yes\n\
             MemoryDenyWriteExecute=yes\n\
             LimitCORE=0\n\
             LimitMEMLOCK=65536\n"@
            == lines_of(strict_settings()),
{
    let whole = "NoNewPrivileges=yes\n\
             PrivateTmp=yes\n\
             ProtectClock=yes\n\
             ProtectControlGroups=yes\n\
             ProtectHome=read-only\n\
             ProtectKernelLogs=yes\n\
             ProtectKernelModules=yes\n\
             ProtectKernelTunables=yes\n\
             ProtectSystem=strict\n\
             DevicePolicy=closed\n\
             RestrictRealtime=yes\n\
             RestrictSUIDSGID=yes\n\
             LockPersonality=yes\n\
             MemoryDenyWriteExecute=yes\n\
             LimitCORE=0\n\
             LimitMEMLOCK=65536\n"@;
    let all = strict_settings();
    reveal_strlit("NoNewPrivileges=yes\n\
             PrivateTmp=yes\n\
             ProtectClock=yes\n\
             ProtectControlGroups=yes\n\
             ProtectHome=read-only\n\
             ProtectKernelLogs=yes\n\
             ProtectKernelModules=yes\n\
             ProtectKernelTunables=yes\n\
             ProtectSystem=strict\n\
             DevicePolicy=closed\n\
             RestrictRealtime=yes\n\
             RestrictSUIDSGID=yes\n\
             LockPersonality=yes\n\
             MemoryDenyWriteExecute=yes\n\
             LimitCORE=0\n\
             LimitMEMLOCK=65536\n");
    reveal_strlit("=");
    reveal_strlit("\n");
    assert(whole.take(0) =~= lines_of(all.take(0)));
    assert(whole.take(20) == lines_of(all.take(1))) by {
        reveal_strlit("NoNewPrivileges");
        reveal_strlit("yes");
        assert(whole.subrange(0, 20) =~= "NoNewPrivileges"@ + "="@ + "yes"@ + "\n"@);
        assert(whole.take(20) =~= whole.take(0) + whole.subrange(0, 20));
        assert(all.take(1) =~= all.take(0).push(all[0]));
        lemma_lines_push(all.take(0), all[0]);
    }
    assert(whole.take(35) == lines_of(all.take(2))) by {
        reveal_strlit("PrivateTmp");
        reveal_strlit("yes");
        assert(whole.subrange(20, 35) =~= "PrivateTmp"@ + "="@ + "yes"@ + "\n"@);
        assert(whole.take(35) =~= whole.take(20) + whole.subrange(20, 35));
        assert(all.take(2) =~= all.take(1).push(all[1]));
        lemma_lines_push(all.take(1), all[1]);
    }
    assert(whole.take(52) == lines_of(all.take(3))) by {
        reveal_strlit("ProtectClock");
        reveal_strlit("yes");
        assert(whole.subrange(35, 52) =~= "ProtectClock"@ + "="@ + "yes"@ + "\n"@);
        assert(whole.take(52) =~= whole.take(35) + whole.subrange(35, 52));
        assert(all.take(3) =~= all.take(2).push(all[2]));
        lemma_lines_push(all.take(2), all[2]);
    }
    assert(whole.take(77) == lines_of(all.take(4))) by {
        reveal_strlit("ProtectControlGroups");
        reveal_strlit("yes");
        assert(whole.subrange(52, 77) =~= "ProtectControlGroups"@ + "="@ + "yes"@ + "\n"@);
        assert(whole.take(77) =~= whole.take(52) + whole.subrange(52, 77));
        assert(all.take(4) =~= all.take(3).push(all[3]));
        lemma_lines_push(all.take(3), all[3]);
    }
    assert(whole.take(99) == lines_of(all.take(5))) by {
        reveal_strlit("ProtectHome");
        reveal_strlit("read-only");
        assert(whole.subrange(77, 99) =~= "ProtectHome"@ + "="@ + "read-only"@ + "\n"@);
        assert(whole.take(99) =~= whole.take(77) + whole.subrange(77, 99));
        assert(all.take(5) =~= all.take(4).push(all[4]));
        lemma_lines_push(all.take(4), all[4]);
    }
    assert(whole.take(121) == lines_of(all.take(6))) by {
        reveal_strlit("ProtectKernelLogs");
        reveal_strlit("yes");
        assert(whole.subrange(99, 121) =~= "ProtectKernelLogs"@ + "="@ + "yes"@ + "\n"@);
        assert(whole.take(121) =~= whole.take(99) + whole.subrange(99, 121));
        assert(all.take(6) =~= all.take(5).push(all[5]));
        lemma_lines_push(all.take(5), all[5]);
    }
    assert(whole.take(146) == lines_of(all.take(7))) by {
        reveal_strlit("ProtectKernelModules");
        reveal_strlit("yes");
        assert(whole.subrange(121, 146) =~= "ProtectKernelModules"@ + "="@ + "yes"@ + "\n"@);
        assert(whole.take(146) =~= whole.take(121) + whole.subrange(121, 146));
        assert(all.take(7) =~= all.take(6).push(all[6]));
        lemma_lines_push(all.take(6), all[6]);
    }
    assert(whole.take(172) == lines_of(all.take(8))) by {
        reveal_strlit("ProtectKernelTunables");
        reveal_strlit("yes");
        assert(whole.subrange(146, 172) =~= "ProtectKernelTunables"@ + "="@ + "yes"@ + "\n"@);
        assert(whole.take(172) =~= whole.take(146) + whole.subrange(146, 172));
        assert(all.take(8) =~= all.take(7).push(all[7]));
        lemma_lines_push(all.take(7), all[7]);
    }
    assert(whole.take(193) == lines_of(all.take(9))) by {
        reveal_strlit("ProtectSystem");
        reveal_strlit("strict");
        assert(whole.subrange(172, 193) =~= "ProtectSystem"@ + "="@ + "strict"@ + "\n"@);
        assert(whole.take(193) =~= whole.take(172) + whole.subrange(172, 193));
        assert(all.take(9) =~= all.take(8).push(all[8]));
        lemma_lines_push(all.take(8), all[8]);
    }
    assert(whole.take(213) == lines_of(all.take(10))) by {
        reveal_strlit("DevicePolicy");
        reveal_strlit("closed");
        assert(whole.subrange(193, 213) =~= "DevicePolicy"@ + "="@ + "closed"@ + "\n"@);
        assert(whole.take(213) =~= whole.take(193) + whole.subrange(193, 213));
        assert(all.take(10) =~= all.take(9).push(all[9]));
        lemma_lines_push(all.take(9), all[9]);
    }
    assert(whole.take(234) == lines_of(all.take(11))) by {
        reveal_strlit("RestrictRealtime");
        reveal_strlit("yes");
        assert(whole.subrange(213, 234) =~= "RestrictRealtime"@ + "="@ + "yes"@ + "\n"@);
        assert(whole.take(234) =~= whole.take(213) + whole.subrange(213, 234));
        assert(all.take(11) =~= all.take(10).push(all[10]));
        lemma_lines_push(all.take(10), all[10]);
    }
    assert(whole.take(255) == lines_of(all.take(12))) by {
        reveal_strlit("RestrictSUIDSGID");
        reveal_strlit("yes");
        assert(whole.subrange(234, 255) =~= "RestrictSUIDSGID"@ + "="@ + "yes"@ + "\n"@);
        assert(whole.take(255) =~= whole.take(234) + whole.subrange(234, 255));
        assert(all.take(12) =~= all.take(11).push(all[11]));
        lemma_lines_push(all.take(11), all[11]);
    }
    assert(whole.take(275) == lines_of(all.take(13))) by {
        reveal_strlit("LockPersonality");
        reveal_strlit("yes");
        assert(whole.subrange(255, 275) =~= "LockPersonality"@ + "="@ + "yes"@ + "\n"@);
        assert(whole.take(275) =~= whole.take(255) + whole.subrange(255, 275));
        assert(all.take(13) =~= all.take(12).push(all[12]));
        lemma_lines_push(all.take(12), all[12]);
    }
    assert(whole.take(302) == lines_of(all.take(14))) by {
        reveal_strlit("MemoryDenyWriteExecute");
        reveal_strlit("yes");
        assert(whole.subrange(275, 302) =~= "MemoryDenyWriteExecute"@ + "="@ + "yes"@ + "\n"@);
        assert(whole.take(302) =~= whole.take(275) + whole.subrange(275, 302));
        assert(all.take(14) =~= all.take(13).push(all[13]));
        lemma_lines_push(all.take(13), all[13]);
    }
    assert(whole.take(314) == lines_of(all.take(15))) by {
        reveal_strlit("LimitCORE");
        reveal_strlit("0");
        assert(whole.subrange(302, 314) =~= "LimitCORE"@ + "="@ + "0"@ + "\n"@);
        assert(whole.take(314) =~= whole.take(302) + whole.subrange(302, 314));
        assert(all.take(15) =~= all.take(14).push(all[14]));
        lemma_lines_push(all.take(14), all[14]);
    }
    assert(whole.take(333) == lines_of(all.take(16))) by {
        reveal_strlit("LimitMEMLOCK");
        reveal_strlit("65536");
        assert(whole.subrange(314, 333) =~= "LimitMEMLOCK"@ + "="@ + "65536"@ + "\n"@);
        assert(whole.take(333) =~= whole.take(314) + whole.subrange(314, 333));
        assert(all.take(16) =~= all.take(15).push(all[15]));
        lemma_lines_push(all.take(15), all[15]);
    }
    assert(whole.take(333) =~= whole);
    assert(all.take(16) =~= all);
}

/// The settings that a service which controls the network has.
spec fn controller_settings() -> Seq<(Seq<char>, Seq<char>)> {
    seq![
        ("PrivateTmp"@, "yes"@),
        ("ProtectClock"@, "yes"@),
        ("ProtectHome"@, "read-only"@),
        ("ProtectKernelLogs"@, "yes"@),
        ("ProtectKernelModules"@, "yes"@),
        ("RestrictRealtime"@, "yes"@),
        ("LockPersonality"@, "yes"@),
    ]
}

#[verifier::spinoff_prover]
#[verifier::rlimit(60)]
proof fn lemma_controller_settings()
    ensures
        "PrivateTmp=yes\n\
             ProtectClock=yes\n\
             ProtectHome=read-only\n\
             ProtectKernelLogs=yes\n\
             ProtectKernelModules=yes\n\
             RestrictRealtime=yes\n\
             LockPersonality=yes\n"@
            == lines_of(controller_settings()),
{
    let whole = "PrivateTmp=yes\n\
             ProtectClock=yes\n\
             ProtectHome=read-only\n\
             ProtectKernelLogs=yes\n\
             ProtectKernelModules=yes\n\
             RestrictRealtime=yes\n\
             LockPersonality=yes\n"@;
    let all = controller_settings();
    reveal_strlit("PrivateTmp=yes\n\
             ProtectClock=yes\n\
             ProtectHome=read-only\n\
             ProtectKernelLogs=yes\n\
             ProtectKernelModules=yes\n\
             RestrictRealtime=yes\n\
             LockPersonality=yes\n");
    reveal_strlit("=");
    reveal_strlit("\n");
    assert(whole.take(0) =~= lines_of(all.take(0)));
    assert(whole.take(15) == lines_of(all.take(1))) by {
        reveal_strlit("PrivateTmp");
        reveal_strlit("yes");
        assert(whole.subrange(0, 15) =~= "PrivateTmp"@ + "="@ + "yes"@ + "\n"@);
        assert(whole.take(15) =~= whole.take(0) + whole.subrange(0, 15));
        assert(all.take(1) =~= all.take(0).push(all[0]));
        lemma_lines_push(all.take(0), all[0]);
    }
    assert(whole.take(32) == lines_of(all.take(2))) by {
        reveal_strlit("ProtectClock");
        reveal_strlit("yes");
        assert(whole.subrange(15, 32) =~= "ProtectClock"@ + "="@ + "yes"@ + "\n"@);
        assert(whole.take(32) =~= whole.take(15) + whole.subrange(15, 32));
        assert(all.take(2) =~= all.take(1).push(all[1]));
        lemma_lines_push(all.take(1), all[1]);
    }
    assert(whole.take(54) == lines_of(all.take(3))) by {
        reveal_strlit("ProtectHome");
        reveal_strlit("read-only");
        assert(whole.subrange(32, 54) =~= "ProtectHome"@ + "="@ + "read-only"@ + "\n"@);
        assert(whole.take(54) =~= whole.take(32) + whole.subrange(32, 54));
        assert(all.take(3) =~= all.take(2).push(all[2]));
        lemma_lines_push(all.take(2), all[2]);
    }
    assert(whole.take(76) == lines_of(all.take(4))) by {
        reveal_strlit("ProtectKernelLogs");
        reveal_strlit("yes");
        assert(whole.subrange(54, 76) =~= "ProtectKernelLogs"@ + "="@ + "yes"@ + "\n"@);
        assert(whole.take(76) =~= whole.take(54) + whole.subrange(54, 76));
        assert(all.take(4) =~= all.take(3).push(all[3]));
        lemma_lines_push(all.take(3), all[3]);
    }
    assert(whole.take(101) == lines_of(all.take(5))) by {
        reveal_strlit("ProtectKernelModules");
        reveal_strlit("yes");
        assert(whole.subrange(76, 101) =~= "ProtectKernelModules"@ + "="@ + "yes"@ + "\n"@);
        assert(whole.take(101) =~= whole.take(76) + whole.subrange(76, 101));
        assert(all.take(5) =~= all.take(4).push(all[4]));
        lemma_lines_push(all.take(4), all[4]);
    }
    assert(whole.take(122) == lines_of(all.take(6))) by {
        reveal_strlit("RestrictRealtime");
        reveal_strlit("yes");
        assert(whole.subrange(101, 122) =~= "RestrictRealtime"@ + "="@ + "yes"@ + "\n"@);
        assert(whole.take(122) =~= whole.take(101) + whole.subrange(101, 122));
        assert(all.take(6) =~= all.take(5).push(all[5]));
        lemma_lines_push(all.take(5), all[5]);
    }
    assert(whole.take(142) == lines_of(all.take(7))) by {
        reveal_strlit("LockPersonality");
        reveal_strlit("yes");
        assert(whole.subrange(122, 142) =~= "LockPersonality"@ + "="@ + "yes"@ + "\n"@);
        assert(whole.take(142) =~= whole.take(122) + whole.subrange(122, 142));
        assert(all.take(7) =~= all.take(6).push(all[6]));
        lemma_lines_push(all.take(6), all[6]);
    }
    assert(whole.take(142) =~= whole);
    assert(all.take(7) =~= all);
}

// ---------------------------------------------------------------------------
// What reading finds
// ---------------------------------------------------------------------------

/// Whether a text is one line at most.
spec fn one_line(s: Seq<char>) -> bool {
    forall|i: int| 0 <= i < s.len() ==> #[trigger] s[i] != '\n'
}

/// The lines of a text that ends with a line feed.
spec fn full_lines(s: Seq<char>) -> Seq<Seq<char>> {
    text::split(s, '\n').drop_last()
}

/// Whether a text is empty or ends with a line feed.
spec fn complete(s: Seq<char>) -> bool {
    text::split(s, '\n').last().len() == 0
}

proof fn lemma_split_append(a: Seq<char>, l: Seq<char>)
    requires
        one_line(l),
    ensures
        text::split(a + l, '\n') == text::split(a, '\n').drop_last().push(
            text::split(a, '\n').last() + l,
        ),
    decreases l.len(),
{
    text::lemma_split_nonempty(a, '\n');
    let pieces = text::split(a, '\n');
    if l.len() == 0 {
        assert(a + l =~= a);
        assert(pieces.last() + l =~= pieces.last());
        assert(pieces =~= pieces.drop_last().push(pieces.last()));
    } else {
        let front = l.drop_last();
        assert forall|i: int| 0 <= i < front.len() implies #[trigger] front[i] != '\n' by {
            assert(l[i] != '\n');
        }
        lemma_split_append(a, front);
        assert((a + l).drop_last() =~= a + front);
        assert(l[l.len() - 1] != '\n');
        assert(pieces.last() + l =~= (pieces.last() + front).push(l.last()));
        assert(text::split(a + l, '\n') =~= pieces.drop_last().push(pieces.last() + l));
    }
}

proof fn lemma_add_line(t: Seq<char>, l: Seq<char>)
    requires
        complete(t),
        one_line(l),
    ensures
        complete(t + (l + "\n"@)),
        full_lines(t + (l + "\n"@)) == full_lines(t).push(l),
{
    reveal_strlit("\n");
    text::lemma_split_nonempty(t, '\n');
    lemma_split_append(t, l);
    let whole = t + (l + "\n"@);
    assert(whole.drop_last() =~= t + l);
    assert(text::split(t, '\n').last() + l =~= l);
    assert(full_lines(whole) =~= full_lines(t).push(l));
}

/// Whether settings can be told from sections and from one another.
spec fn readable(settings: Seq<(Seq<char>, Seq<char>)>) -> bool {
    forall|i: int| 0 <= i < settings.len() ==> readable_setting(#[trigger] settings[i])
}

spec fn readable_setting(s: (Seq<char>, Seq<char>)) -> bool {
    &&& s.0.len() > 0
    &&& s.0[0] != '['
    &&& !s.0.contains('=')
    &&& one_line(s.0)
    &&& one_line(s.1)
}

proof fn lemma_read_line(s: (Seq<char>, Seq<char>))
    requires
        readable_setting(s),
    ensures
        ({
            let line = line_of(s);
            &&& one_line(line)
            &&& !is_header(line)
            &&& line.contains('=')
            &&& key_of(line) == s.0
            &&& line.skip(s.0.len() as int + 1) == s.1
        }),
{
    reveal_strlit("=");
    let line = line_of(s);
    let n = s.0.len() as int;
    assert(line[n] == '=');
    assert(line[0] == s.0[0]);
    assert forall|i: int| 0 <= i < line.len() implies #[trigger] line[i] != '\n' by {
        if i < n {
            assert(s.0[i] != '\n');
        } else if i > n {
            assert(s.1[i - n - 1] != '\n');
        }
    }
    assert(line =~= s.0.push('=') + s.1);
    unix_path::lemma_split_concat(s.0, s.1, '=');
    unix_path::lemma_split_single(s.0, '=');
    assert(key_of(line) == s.0);
    assert(line.skip(n + 1) =~= s.1);
}

/// What reading finds once settings were added to a text that ends in a section.
proof fn lemma_read_settings(
    t: Seq<char>,
    settings: Seq<(Seq<char>, Seq<char>)>,
    header: Seq<char>,
)
    requires
        complete(t),
        readable(settings),
    ensures
        complete(t + lines_of(settings)),
        section_of(full_lines(t + lines_of(settings))) == section_of(full_lines(t)),
        settings_in(full_lines(t + lines_of(settings)), header) == settings_in(
            full_lines(t),
            header,
        ) + if section_of(full_lines(t)) == header {
            settings
        } else {
            seq![]
        },
    decreases settings.len(),
{
    let found = settings_in(full_lines(t), header);
    if settings.len() == 0 {
        assert(t + lines_of(settings) =~= t);
        assert(settings =~= seq![]);
        assert(found + settings =~= found);
    } else {
        let front = settings.drop_last();
        let last = settings.last();
        assert forall|i: int| 0 <= i < front.len() implies readable_setting(#[trigger] front[i]) by {
            assert(readable_setting(settings[i]));
        }
        lemma_read_settings(t, front, header);
        assert(readable_setting(settings[settings.len() - 1]));
        lemma_read_line(last);
        let before = t + lines_of(front);
        lemma_add_line(before, line_of(last));
        assert(t + lines_of(settings) =~= before + (line_of(last) + "\n"@));
        let lines = full_lines(t + lines_of(settings));
        assert(lines.drop_last() =~= full_lines(before));
        if section_of(full_lines(t)) == header {
            assert(found + settings =~= (found + front).push(last));
        } else {
            assert(found + seq![] =~= found);
        }
    }
}

/// What reading finds once a section was added.
proof fn lemma_read_section(
    t: Seq<char>,
    name: Seq<char>,
    settings: Seq<(Seq<char>, Seq<char>)>,
    header: Seq<char>,
)
    requires
        complete(t),
        is_header(name),
        one_line(name),
        readable(settings),
    ensures
        complete(t + (name + "\n"@) + lines_of(settings)),
        settings_in(full_lines(t + (name + "\n"@) + lines_of(settings)), header) == settings_in(
            full_lines(t),
            header,
        ) + if name == header {
            settings
        } else {
            seq![]
        },
{
    lemma_add_line(t, name);
    let named = t + (name + "\n"@);
    assert(full_lines(named).drop_last() =~= full_lines(t));
    lemma_read_settings(named, settings, header);
}

/// An empty line is no setting.
proof fn lemma_read_blank(t: Seq<char>, header: Seq<char>)
    requires
        complete(t),
    ensures
        complete(t + "\n"@),
        settings_in(full_lines(t + "\n"@), header) == settings_in(full_lines(t), header),
{
    let none = Seq::<char>::empty();
    lemma_add_line(t, none);
    assert(none + "\n"@ =~= "\n"@);
    assert(full_lines(t + "\n"@).drop_last() =~= full_lines(t));
}

/// A file of three sections.
spec fn three_sections(
    a: Seq<char>,
    first: Seq<(Seq<char>, Seq<char>)>,
    b: Seq<char>,
    second: Seq<(Seq<char>, Seq<char>)>,
    c: Seq<char>,
    third: Seq<(Seq<char>, Seq<char>)>,
) -> Seq<char> {
    (a + "\n"@) + lines_of(first) + "\n"@ + (b + "\n"@) + lines_of(second) + "\n"@ + (c + "\n"@)
        + lines_of(third)
}

/// A file of three sections is read as these sections.
proof fn lemma_read_three(
    a: Seq<char>,
    first: Seq<(Seq<char>, Seq<char>)>,
    b: Seq<char>,
    second: Seq<(Seq<char>, Seq<char>)>,
    c: Seq<char>,
    third: Seq<(Seq<char>, Seq<char>)>,
    header: Seq<char>,
)
    requires
        is_header(a) && one_line(a) && readable(first),
        is_header(b) && one_line(b) && readable(second),
        is_header(c) && one_line(c) && readable(third),
        a != b && b != c && a != c,
    ensures
        read_section(three_sections(a, first, b, second, c, third), header) == if header == a {
            first
        } else if header == b {
            second
        } else if header == c {
            third
        } else {
            seq![]
        },
{
    let t0 = Seq::<char>::empty();
    assert(text::split(t0, '\n') =~= seq![t0]);
    assert(full_lines(t0) =~= seq![]);
    lemma_read_section(t0, a, first, header);
    let t1 = t0 + (a + "\n"@) + lines_of(first);
    lemma_read_blank(t1, header);
    let t2 = t1 + "\n"@;
    lemma_read_section(t2, b, second, header);
    let t3 = t2 + (b + "\n"@) + lines_of(second);
    lemma_read_blank(t3, header);
    let t4 = t3 + "\n"@;
    lemma_read_section(t4, c, third, header);
    let t5 = t4 + (c + "\n"@) + lines_of(third);
    assert(t0 + (a + "\n"@) =~= a + "\n"@);
    let whole = three_sections(a, first, b, second, c, third);
    assert(whole == t5);
    let lines = text::split(whole, '\n');
    text::lemma_split_nonempty(whole, '\n');
    assert(lines.drop_last() == full_lines(whole));
    assert(read_section(whole, header) == settings_in(full_lines(whole), header));
    assert(read_section(whole, header) =~= if header == a {
        first
    } else if header == b {
        second
    } else if header == c {
        third
    } else {
        seq![]
    });
}

// ---------------------------------------------------------------------------
// Texts of one line
// ---------------------------------------------------------------------------

proof fn lemma_one_line_plus(a: Seq<char>, b: Seq<char>)
    requires
        one_line(a),
        one_line(b),
    ensures
        one_line(a + b),
{
    assert forall|i: int| 0 <= i < (a + b).len() implies #[trigger] (a + b)[i] != '\n' by {
        if i < a.len() {
            assert(a[i] != '\n');
        } else {
            assert(b[i - a.len()] != '\n');
        }
    }
}

proof fn lemma_one_line_safe(s: Seq<char>)
    requires
        !unsafe_text(s),
    ensures
        one_line(s),
{
    assert forall|i: int| 0 <= i < s.len() implies #[trigger] s[i] != '\n' by {
        assert(!unsafe_unit_char(s[i]));
    }
}

proof fn lemma_one_line_identifier(s: Seq<char>)
    requires
        identifier(s),
    ensures
        one_line(s),
{
    assert forall|i: int| 0 <= i < s.len() implies #[trigger] s[i] != '\n' by {
        assert(identifier_char(s[i]));
    }
}

proof fn lemma_one_line_quoted(s: Seq<char>)
    requires
        one_line(s),
    ensures
        one_line(quoted(s)),
    decreases s.len(),
{
    lemma_one_line_escaped(s);
    lemma_one_line_plus(seq!['"'], escaped(s));
    lemma_one_line_plus(seq!['"'] + escaped(s), seq!['"']);
}

proof fn lemma_one_line_escaped(s: Seq<char>)
    requires
        one_line(s),
    ensures
        one_line(escaped(s)),
    decreases s.len(),
{
    if s.len() > 0 {
        let front = s.drop_last();
        assert forall|i: int| 0 <= i < front.len() implies #[trigger] front[i] != '\n' by {
            assert(s[i] != '\n');
        }
        lemma_one_line_escaped(front);
        assert(s[s.len() - 1] != '\n');
        lemma_one_line_plus(escaped(front), escaped_char(s.last()));
    }
}

proof fn lemma_one_line_arguments(arguments: Seq<String>)
    requires
        forall|i: int| 0 <= i < arguments.len() ==> !unsafe_text((#[trigger] arguments[i])@),
    ensures
        one_line(argument_words(arguments)),
    decreases arguments.len(),
{
    reveal_strlit(" ");
    if arguments.len() > 0 {
        let front = arguments.drop_last();
        assert forall|i: int| 0 <= i < front.len() implies !unsafe_text((#[trigger] front[i])@) by {
            assert(!unsafe_text(arguments[i]@));
        }
        lemma_one_line_arguments(front);
        assert(!unsafe_text(arguments[arguments.len() - 1]@));
        lemma_one_line_safe(arguments.last()@);
        lemma_one_line_quoted(arguments.last()@);
        lemma_one_line_plus(argument_words(front), " "@);
        lemma_one_line_plus(argument_words(front) + " "@, quoted(arguments.last()@));
    }
}

proof fn lemma_one_line_joined(list: Seq<Seq<char>>)
    requires
        forall|i: int| 0 <= i < list.len() ==> one_line(#[trigger] list[i]),
    ensures
        one_line(text::joined(list, " "@)),
    decreases list.len(),
{
    reveal_strlit(" ");
    if list.len() == 1 {
        assert(one_line(list[0]));
    } else if list.len() > 1 {
        let front = list.drop_last();
        assert forall|i: int| 0 <= i < front.len() implies one_line(#[trigger] front[i]) by {
            assert(one_line(list[i]));
        }
        lemma_one_line_joined(front);
        assert(one_line(list[list.len() - 1]));
        lemma_one_line_plus(text::joined(front, " "@), " "@);
        lemma_one_line_plus(text::joined(front, " "@) + " "@, list.last());
    }
}

proof fn lemma_one_line_octal(n: nat)
    ensures
        one_line(text::octal(n)),
    decreases n,
{
    if n >= 8 {
        lemma_one_line_octal(n / 8);
        assert forall|i: int| 0 <= i < text::octal(n).len() implies #[trigger] text::octal(n)[i]
            != '\n' by {
            if i < text::octal(n / 8).len() {
                assert(text::octal(n / 8)[i] != '\n');
            }
        }
    }
}

proof fn lemma_one_line_numbers(n: nat, mode: u32)
    ensures
        one_line(text::decimal(n)),
        one_line(mode_text(mode)),
{
    text::lemma_decimal_value(n);
    assert forall|i: int| 0 <= i < text::decimal(n).len() implies #[trigger] text::decimal(n)[i]
        != '\n' by {
        assert(text::is_digit(text::decimal(n)[i]));
    }
    lemma_one_line_octal(mode as nat);
    let digits = text::octal(mode as nat);
    if digits.len() < 4 {
        lemma_one_line_plus(Seq::new((4 - digits.len()) as nat, |i: int| '0'), digits);
    }
}

proof fn lemma_one_line_path(p: Seq<char>, q: Seq<char>)
    requires
        path(p) == path(q),
        one_line(q),
    ensures
        one_line(p),
{
    assert forall|i: int| 0 <= i < p.len() implies #[trigger] p[i] != '\n' by {
        if p[i] != '/' && p[i] != '.' {
            unix_path::lemma_same_path_chars(p, q, i);
            let j = choose|j: int| 0 <= j < q.len() && q[j] == p[i];
            assert(q[j] != '\n');
        }
    }
}

proof fn lemma_one_line_executable(o: ManagedProductOptions)
    requires
        o.accepted(),
    ensures
        one_line(o.service.executable@),
{
    let binaries = o.system_binaries@;
    let places = destinations(binaries);
    let executable = path(o.service.executable@);
    let k = choose|k: int| 0 <= k < places.len() && places[k] == executable;
    assert(path(binaries[k].destination@) == executable);
    let ok = |i: int| binary_ok(binaries, i);
    lemma_none_failing(ok, binaries.len(), 0);
    assert(ok(k));
    let name = binaries[k].cargo_name@;
    lemma_one_line_identifier(name);
    let whole = "/usr/local/bin"@.push('/') + name;
    assert(!name.contains('/')) by {
        if name.contains('/') {
            let j = choose|j: int| 0 <= j < name.len() && name[j] == '/';
            assert(identifier_char(name[j]));
        }
    }
    assert(name[0] != '.') by {
        assert(identifier_char(name[0]));
    }
    reveal_strlit("/usr/local/bin");
    unix_path::lemma_join_name("/usr/local/bin"@, name);
    assert(path(whole).parts =~= path(o.service.executable@).parts);
    assert(one_line("/usr/local/bin"@));
    lemma_one_line_plus(seq!['/'], name);
    lemma_one_line_plus("/usr/local/bin"@, seq!['/'] + name);
    assert(whole =~= "/usr/local/bin"@ + (seq!['/'] + name));
    lemma_one_line_path(o.service.executable@, whole);
}

proof fn lemma_one_line_socket_path(product: Seq<char>, descriptor: Seq<char>)
    requires
        identifier(product),
        descriptor == "application"@ || descriptor == "capulus"@,
    ensures
        one_line(socket_path(product, descriptor)),
{
    reveal_strlit("/run");
    reveal_strlit("agent.sock");
    reveal_strlit("capulus.sock");
    lemma_one_line_identifier(product);
    let directory = unix_path::joined("/run"@, product);
    assert(one_line("/run"@));
    assert(one_line("agent.sock"@));
    assert(one_line("capulus.sock"@));
    assert("/run"@.push('/') =~= "/run"@ + seq!['/']);
    lemma_one_line_plus("/run"@, seq!['/']);
    lemma_one_line_plus("/run"@.push('/'), product);
    lemma_one_line_plus("/run"@, product);
    let file = socket_file(descriptor);
    assert(directory.push('/') =~= directory + seq!['/']);
    lemma_one_line_plus(directory, seq!['/']);
    lemma_one_line_plus(directory.push('/'), file);
    lemma_one_line_plus(directory, file);
}

proof fn lemma_assoc(a: Seq<char>, b: Seq<char>, c: Seq<char>)
    ensures
        a + (b + c) == a + b + c,
{
    assert(a + (b + c) =~= a + b + c);
}

proof fn lemma_plus_nothing(t: Seq<char>)
    ensures
        t + lines_of(Seq::<(Seq<char>, Seq<char>)>::empty()) == t,
{
    assert(t + lines_of(Seq::<(Seq<char>, Seq<char>)>::empty()) =~= t);
}

/// Settings that are read one behind the other.
proof fn lemma_grow(t: Seq<char>, settings: Seq<(Seq<char>, Seq<char>)>, s: (Seq<char>, Seq<char>))
    ensures
        t + lines_of(settings.push(s)) == t + lines_of(settings) + s.0 + "="@ + s.1 + "\n"@,
{
    lemma_lines_push(settings, s);
    let l = lines_of(settings);
    lemma_assoc(t, l, line_of(s) + "\n"@);
    lemma_assoc(t + l, line_of(s), "\n"@);
    lemma_assoc(t + l, s.0 + "="@, s.1);
    lemma_assoc(t + l, s.0, "="@);
}

proof fn lemma_app2(t: Seq<char>, p0: Seq<char>, p1: Seq<char>)
    ensures
        t + (p0 + p1) == t + p0 + p1,
{
    lemma_assoc(t, p0, p1);
}

proof fn lemma_app3(t: Seq<char>, p0: Seq<char>, p1: Seq<char>, p2: Seq<char>)
    ensures
        t + (p0 + p1 + p2) == t + p0 + p1 + p2,
{
    lemma_assoc(t, p0 + p1, p2);
    lemma_assoc(t, p0, p1);
}

proof fn lemma_app4(t: Seq<char>, p0: Seq<char>, p1: Seq<char>, p2: Seq<char>, p3: Seq<char>)
    ensures
        t + (p0 + p1 + p2 + p3) == t + p0 + p1 + p2 + p3,
{
    lemma_assoc(t, p0 + p1 + p2, p3);
    lemma_assoc(t, p0 + p1, p2);
    lemma_assoc(t, p0, p1);
}

proof fn lemma_app7(t: Seq<char>, p0: Seq<char>, p1: Seq<char>, p2: Seq<char>, p3: Seq<char>, p4: Seq<char>, p5: Seq<char>, p6: Seq<char>)
    ensures
        t + (p0 + p1 + p2 + p3 + p4 + p5 + p6) == t + p0 + p1 + p2 + p3 + p4 + p5 + p6,
{
    lemma_assoc(t, p0 + p1 + p2 + p3 + p4 + p5, p6);
    lemma_assoc(t, p0 + p1 + p2 + p3 + p4, p5);
    lemma_assoc(t, p0 + p1 + p2 + p3, p4);
    lemma_assoc(t, p0 + p1 + p2, p3);
    lemma_assoc(t, p0 + p1, p2);
    lemma_assoc(t, p0, p1);
}

proof fn lemma_app8(t: Seq<char>, p0: Seq<char>, p1: Seq<char>, p2: Seq<char>, p3: Seq<char>, p4: Seq<char>, p5: Seq<char>, p6: Seq<char>, p7: Seq<char>)
    ensures
        t + (p0 + p1 + p2 + p3 + p4 + p5 + p6 + p7) == t + p0 + p1 + p2 + p3 + p4 + p5 + p6 + p7,
{
    lemma_assoc(t, p0 + p1 + p2 + p3 + p4 + p5 + p6, p7);
    lemma_assoc(t, p0 + p1 + p2 + p3 + p4 + p5, p6);
    lemma_assoc(t, p0 + p1 + p2 + p3 + p4, p5);
    lemma_assoc(t, p0 + p1 + p2 + p3, p4);
    lemma_assoc(t, p0 + p1 + p2, p3);
    lemma_assoc(t, p0 + p1, p2);
    lemma_assoc(t, p0, p1);
}

proof fn lemma_app12(t: Seq<char>, p0: Seq<char>, p1: Seq<char>, p2: Seq<char>, p3: Seq<char>, p4: Seq<char>, p5: Seq<char>, p6: Seq<char>, p7: Seq<char>, p8: Seq<char>, p9: Seq<char>, p10: Seq<char>, p11: Seq<char>)
    ensures
        t + (p0 + p1 + p2 + p3 + p4 + p5 + p6 + p7 + p8 + p9 + p10 + p11) == t + p0 + p1 + p2 + p3 + p4 + p5 + p6 + p7 + p8 + p9 + p10 + p11,
{
    lemma_assoc(t, p0 + p1 + p2 + p3 + p4 + p5 + p6 + p7 + p8 + p9 + p10, p11);
    lemma_assoc(t, p0 + p1 + p2 + p3 + p4 + p5 + p6 + p7 + p8 + p9, p10);
    lemma_assoc(t, p0 + p1 + p2 + p3 + p4 + p5 + p6 + p7 + p8, p9);
    lemma_assoc(t, p0 + p1 + p2 + p3 + p4 + p5 + p6 + p7, p8);
    lemma_assoc(t, p0 + p1 + p2 + p3 + p4 + p5 + p6, p7);
    lemma_assoc(t, p0 + p1 + p2 + p3 + p4 + p5, p6);
    lemma_assoc(t, p0 + p1 + p2 + p3 + p4, p5);
    lemma_assoc(t, p0 + p1 + p2 + p3, p4);
    lemma_assoc(t, p0 + p1 + p2, p3);
    lemma_assoc(t, p0 + p1, p2);
    lemma_assoc(t, p0, p1);
}

proof fn lemma_app15(t: Seq<char>, p0: Seq<char>, p1: Seq<char>, p2: Seq<char>, p3: Seq<char>, p4: Seq<char>, p5: Seq<char>, p6: Seq<char>, p7: Seq<char>, p8: Seq<char>, p9: Seq<char>, p10: Seq<char>, p11: Seq<char>, p12: Seq<char>, p13: Seq<char>, p14: Seq<char>)
    ensures
        t + (p0 + p1 + p2 + p3 + p4 + p5 + p6 + p7 + p8 + p9 + p10 + p11 + p12 + p13 + p14) == t + p0 + p1 + p2 + p3 + p4 + p5 + p6 + p7 + p8 + p9 + p10 + p11 + p12 + p13 + p14,
{
    lemma_assoc(t, p0 + p1 + p2 + p3 + p4 + p5 + p6 + p7 + p8 + p9 + p10 + p11 + p12 + p13, p14);
    lemma_assoc(t, p0 + p1 + p2 + p3 + p4 + p5 + p6 + p7 + p8 + p9 + p10 + p11 + p12, p13);
    lemma_assoc(t, p0 + p1 + p2 + p3 + p4 + p5 + p6 + p7 + p8 + p9 + p10 + p11, p12);
    lemma_assoc(t, p0 + p1 + p2 + p3 + p4 + p5 + p6 + p7 + p8 + p9 + p10, p11);
    lemma_assoc(t, p0 + p1 + p2 + p3 + p4 + p5 + p6 + p7 + p8 + p9, p10);
    lemma_assoc(t, p0 + p1 + p2 + p3 + p4 + p5 + p6 + p7 + p8, p9);
    lemma_assoc(t, p0 + p1 + p2 + p3 + p4 + p5 + p6 + p7, p8);
    lemma_assoc(t, p0 + p1 + p2 + p3 + p4 + p5 + p6, p7);
    lemma_assoc(t, p0 + p1 + p2 + p3 + p4 + p5, p6);
    lemma_assoc(t, p0 + p1 + p2 + p3 + p4, p5);
    lemma_assoc(t, p0 + p1 + p2 + p3, p4);
    lemma_assoc(t, p0 + p1 + p2, p3);
    lemma_assoc(t, p0 + p1, p2);
    lemma_assoc(t, p0, p1);
}

proof fn lemma_app25(t: Seq<char>, p0: Seq<char>, p1: Seq<char>, p2: Seq<char>, p3: Seq<char>, p4: Seq<char>, p5: Seq<char>, p6: Seq<char>, p7: Seq<char>, p8: Seq<char>, p9: Seq<char>, p10: Seq<char>, p11: Seq<char>, p12: Seq<char>, p13: Seq<char>, p14: Seq<char>, p15: Seq<char>, p16: Seq<char>, p17: Seq<char>, p18: Seq<char>, p19: Seq<char>, p20: Seq<char>, p21: Seq<char>, p22: Seq<char>, p23: Seq<char>, p24: Seq<char>)
    ensures
        t + (p0 + p1 + p2 + p3 + p4 + p5 + p6 + p7 + p8 + p9 + p10 + p11 + p12 + p13 + p14 + p15 + p16 + p17 + p18 + p19 + p20 + p21 + p22 + p23 + p24) == t + p0 + p1 + p2 + p3 + p4 + p5 + p6 + p7 + p8 + p9 + p10 + p11 + p12 + p13 + p14 + p15 + p16 + p17 + p18 + p19 + p20 + p21 + p22 + p23 + p24,
{
    lemma_assoc(t, p0 + p1 + p2 + p3 + p4 + p5 + p6 + p7 + p8 + p9 + p10 + p11 + p12 + p13 + p14 + p15 + p16 + p17 + p18 + p19 + p20 + p21 + p22 + p23, p24);
    lemma_assoc(t, p0 + p1 + p2 + p3 + p4 + p5 + p6 + p7 + p8 + p9 + p10 + p11 + p12 + p13 + p14 + p15 + p16 + p17 + p18 + p19 + p20 + p21 + p22, p23);
    lemma_assoc(t, p0 + p1 + p2 + p3 + p4 + p5 + p6 + p7 + p8 + p9 + p10 + p11 + p12 + p13 + p14 + p15 + p16 + p17 + p18 + p19 + p20 + p21, p22);
    lemma_assoc(t, p0 + p1 + p2 + p3 + p4 + p5 + p6 + p7 + p8 + p9 + p10 + p11 + p12 + p13 + p14 + p15 + p16 + p17 + p18 + p19 + p20, p21);
    lemma_assoc(t, p0 + p1 + p2 + p3 + p4 + p5 + p6 + p7 + p8 + p9 + p10 + p11 + p12 + p13 + p14 + p15 + p16 + p17 + p18 + p19, p20);
    lemma_assoc(t, p0 + p1 + p2 + p3 + p4 + p5 + p6 + p7 + p8 + p9 + p10 + p11 + p12 + p13 + p14 + p15 + p16 + p17 + p18, p19);
    lemma_assoc(t, p0 + p1 + p2 + p3 + p4 + p5 + p6 + p7 + p8 + p9 + p10 + p11 + p12 + p13 + p14 + p15 + p16 + p17, p18);
    lemma_assoc(t, p0 + p1 + p2 + p3 + p4 + p5 + p6 + p7 + p8 + p9 + p10 + p11 + p12 + p13 + p14 + p15 + p16, p17);
    lemma_assoc(t, p0 + p1 + p2 + p3 + p4 + p5 + p6 + p7 + p8 + p9 + p10 + p11 + p12 + p13 + p14 + p15, p16);
    lemma_assoc(t, p0 + p1 + p2 + p3 + p4 + p5 + p6 + p7 + p8 + p9 + p10 + p11 + p12 + p13 + p14, p15);
    lemma_assoc(t, p0 + p1 + p2 + p3 + p4 + p5 + p6 + p7 + p8 + p9 + p10 + p11 + p12 + p13, p14);
    lemma_assoc(t, p0 + p1 + p2 + p3 + p4 + p5 + p6 + p7 + p8 + p9 + p10 + p11 + p12, p13);
    lemma_assoc(t, p0 + p1 + p2 + p3 + p4 + p5 + p6 + p7 + p8 + p9 + p10 + p11, p12);
    lemma_assoc(t, p0 + p1 + p2 + p3 + p4 + p5 + p6 + p7 + p8 + p9 + p10, p11);
    lemma_assoc(t, p0 + p1 + p2 + p3 + p4 + p5 + p6 + p7 + p8 + p9, p10);
    lemma_assoc(t, p0 + p1 + p2 + p3 + p4 + p5 + p6 + p7 + p8, p9);
    lemma_assoc(t, p0 + p1 + p2 + p3 + p4 + p5 + p6 + p7, p8);
    lemma_assoc(t, p0 + p1 + p2 + p3 + p4 + p5 + p6, p7);
    lemma_assoc(t, p0 + p1 + p2 + p3 + p4 + p5, p6);
    lemma_assoc(t, p0 + p1 + p2 + p3 + p4, p5);
    lemma_assoc(t, p0 + p1 + p2 + p3, p4);
    lemma_assoc(t, p0 + p1 + p2, p3);
    lemma_assoc(t, p0 + p1, p2);
    lemma_assoc(t, p0, p1);
}

// ---------------------------------------------------------------------------
// The files as sections
// ---------------------------------------------------------------------------

spec fn dependency_settings(o: ManagedProductOptions) -> Seq<(Seq<char>, Seq<char>)> {
    seq![
        ("Description"@, o.service.description@),
        ("Requires"@, needed_sockets(o)),
        ("After"@, needed_sockets(o)),
    ] + network_settings(o.service.network_required) + seq![("StartLimitIntervalSec"@, "0"@)]
}

spec fn needed_sockets(o: ManagedProductOptions) -> Seq<char> {
    let management = management_socket_name(o.product@);
    if o.application_socket is SystemdActivated {
        application_socket_name(o.product@) + " "@ + management
    } else {
        management
    }
}

spec fn network_settings(required: bool) -> Seq<(Seq<char>, Seq<char>)> {
    if required {
        seq![("After"@, "network-online.target"@), ("Wants"@, "network-online.target"@)]
    } else {
        seq![]
    }
}

spec fn runtime_settings(o: ManagedProductOptions) -> Seq<(Seq<char>, Seq<char>)> {
    seq![
        ("Type"@, "exec"@),
        ("User"@, "root"@),
        ("Group"@, "root"@),
        ("UMask"@, "0077"@),
        ("ExecStart"@, quoted(o.service.executable@) + argument_words(o.service.arguments@)),
        ("Restart"@, "always"@),
        (
            "RestartSec"@,
            text::decimal(o.service.restart_delay@ / (NANOS_PER_SECOND as nat)) + "s"@,
        ),
        ("RuntimeDirectory"@, o.product@ + " capulus"@),
        ("RuntimeDirectoryMode"@, "0755"@),
        ("RuntimeDirectoryPreserve"@, "yes"@),
        ("StateDirectory"@, o.product@),
        ("StateDirectoryMode"@, mode_text(o.service.state_directory_mode)),
    ]
}

spec fn device_settings(paths: Seq<String>) -> Seq<(Seq<char>, Seq<char>)> {
    paths.map_values(|p: String| ("DeviceAllow"@, quoted(p@) + " rw"@))
}

spec fn hardening_settings(hardening: ServiceHardening) -> Seq<(Seq<char>, Seq<char>)> {
    match hardening {
        ServiceHardening::Strict { read_write_paths, device_allow } => strict_settings() + seq![
            ("ReadWritePaths"@, text::joined(writable_words(read_write_paths@), " "@)),
        ] + device_settings(device_allow@),
        ServiceHardening::SystemNetworkController => controller_settings(),
    }
}

spec fn wanted_by(target: Seq<char>) -> Seq<(Seq<char>, Seq<char>)> {
    seq![("WantedBy"@, target)]
}

spec fn group_settings(group: Option<String>) -> Seq<(Seq<char>, Seq<char>)> {
    match group {
        Some(g) => seq![("SocketGroup"@, g@)],
        None => seq![],
    }
}

spec fn socket_settings(product: Seq<char>, descriptor: Seq<char>, socket: SocketOptions) -> Seq<
    (Seq<char>, Seq<char>),
> {
    seq![
        ("ListenStream"@, socket.path@),
        ("FileDescriptorName"@, descriptor),
        ("Service"@, service_name(product)),
        ("Accept"@, "no"@),
        ("SocketMode"@, mode_text(socket.mode)),
    ] + group_settings(socket.group) + seq![("DirectoryMode"@, "0755"@), ("RemoveOnStop"@, "yes"@)]
}

spec fn socket_description(product: Seq<char>, descriptor: Seq<char>) -> Seq<
    (Seq<char>, Seq<char>),
> {
    seq![("Description"@, product + " "@ + descriptor + " socket"@)]
}

/// The lines of settings, one behind the other.
proof fn lemma_lines_two(a: (Seq<char>, Seq<char>), b: (Seq<char>, Seq<char>))
    ensures
        lines_of(seq![a]) == line_of(a) + "\n"@,
        lines_of(seq![a, b]) == line_of(a) + "\n"@ + (line_of(b) + "\n"@),
{
    let none = Seq::<(Seq<char>, Seq<char>)>::empty();
    lemma_lines_push(none, a);
    assert(none.push(a) =~= seq![a]);
    assert(lines_of(seq![a]) =~= line_of(a) + "\n"@);
    lemma_lines_push(seq![a], b);
    assert(seq![a].push(b) =~= seq![a, b]);
}

proof fn lemma_devices(paths: Seq<String>)
    ensures
        device_lines(paths) == lines_of(device_settings(paths)),
    decreases paths.len(),
{
    if paths.len() == 0 {
        assert(device_settings(paths) =~= seq![]);
    } else {
        let front = paths.drop_last();
        lemma_devices(front);
        let all = device_settings(paths);
        assert(all.drop_last() =~= device_settings(front));
        lemma_words_device();
        lemma_words_device_end();
        let t = device_lines(front);
        let word = quoted(paths.last()@);
        lemma_assoc(t, "DeviceAllow"@, "="@);
        lemma_assoc(t + "DeviceAllow"@ + "="@ + word, " rw"@, "\n"@);
        lemma_lines_push(device_settings(front), all.last());
        assert(device_settings(front).push(all.last()) =~= all);
        lemma_grow(Seq::<char>::empty(), device_settings(front), all.last());
        lemma_assoc(t, line_of(all.last()), "\n"@);
        lemma_assoc(t, "DeviceAllow"@ + "="@, word + " rw"@);
        lemma_assoc(t + "DeviceAllow"@ + "="@, word, " rw"@);
    }
}

proof fn lemma_hardening(hardening: ServiceHardening)
    ensures
        hardening_text(hardening) == lines_of(hardening_settings(hardening)),
{
    match hardening {
        ServiceHardening::Strict { read_write_paths, device_allow } => {
            lemma_strict_settings();
            lemma_devices(device_allow@);
            let words = writable_words(read_write_paths@);
            let writable = ("ReadWritePaths"@, text::joined(words, " "@));
            lemma_lines_two(writable, writable);
            lemma_lines_concat(strict_settings(), seq![writable]);
            lemma_lines_concat(
                strict_settings() + seq![writable],
                device_settings(device_allow@),
            );
            assert(path_list("ReadWritePaths"@, words) == line_of(writable) + "\n"@);
        },
        ServiceHardening::SystemNetworkController => {
            lemma_controller_settings();
        },
    }
}

#[verifier::spinoff_prover]
proof fn lemma_words_unit_start()
    ensures
        "[Unit]\nDescription="@ == "[Unit]"@ + "\n"@ + "Description"@ + "="@,
{
    reveal_strlit("[Unit]\nDescription=");
    reveal_strlit("[Unit]");
    reveal_strlit("\n");
    reveal_strlit("Description");
    reveal_strlit("=");
    assert("[Unit]\nDescription="@ =~= "[Unit]"@ + "\n"@ + "Description"@ + "="@);
}

#[verifier::spinoff_prover]
proof fn lemma_words_requires()
    ensures
        "Requires="@ == "Requires"@ + "="@,
{
    reveal_strlit("Requires=");
    reveal_strlit("Requires");
    reveal_strlit("=");
    assert("Requires="@ =~= "Requires"@ + "="@);
}

#[verifier::spinoff_prover]
proof fn lemma_words_after()
    ensures
        "\nAfter="@ == "\n"@ + "After"@ + "="@,
{
    reveal_strlit("\nAfter=");
    reveal_strlit("\n");
    reveal_strlit("After");
    reveal_strlit("=");
    assert("\nAfter="@ =~= "\n"@ + "After"@ + "="@);
}

#[verifier::spinoff_prover]
proof fn lemma_words_network()
    ensures
        "After=network-online.target\nWants=network-online.target\n"@ == "After"@ + "="@ + "network-online.target"@ + "\n"@ + "Wants"@ + "="@ + "network-online.target"@ + "\n"@,
{
    reveal_strlit("After=network-online.target\nWants=network-online.target\n");
    reveal_strlit("After");
    reveal_strlit("=");
    reveal_strlit("network-online.target");
    reveal_strlit("\n");
    reveal_strlit("Wants");
    assert("After=network-online.target\nWants=network-online.target\n"@ =~= "After"@ + "="@ + "network-online.target"@ + "\n"@ + "Wants"@ + "="@ + "network-online.target"@ + "\n"@);
}

#[verifier::spinoff_prover]
proof fn lemma_words_start()
    ensures
        "StartLimitIntervalSec=0\n\
           \n\
           [Service]\n\
           Type=exec\n\
           User=root\n\
           Group=root\n\
           UMask=0077\n\
           ExecStart="@ == "StartLimitIntervalSec"@ + "="@ + "0"@ + "\n"@ + "\n"@ + "[Service]"@ + "\n"@ + "Type"@ + "="@ + "exec"@ + "\n"@ + "User"@ + "="@ + "root"@ + "\n"@ + "Group"@ + "="@ + "root"@ + "\n"@ + "UMask"@ + "="@ + "0077"@ + "\n"@ + "ExecStart"@ + "="@,
{
    reveal_strlit("StartLimitIntervalSec=0\n\
           \n\
           [Service]\n\
           Type=exec\n\
           User=root\n\
           Group=root\n\
           UMask=0077\n\
           ExecStart=");
    reveal_strlit("StartLimitIntervalSec");
    reveal_strlit("=");
    reveal_strlit("0");
    reveal_strlit("\n");
    reveal_strlit("[Service]");
    reveal_strlit("Type");
    reveal_strlit("exec");
    reveal_strlit("User");
    reveal_strlit("root");
    reveal_strlit("Group");
    reveal_strlit("UMask");
    reveal_strlit("0077");
    reveal_strlit("ExecStart");
    assert("StartLimitIntervalSec=0\n\
           \n\
           [Service]\n\
           Type=exec\n\
           User=root\n\
           Group=root\n\
           UMask=0077\n\
           ExecStart="@ =~= "StartLimitIntervalSec"@ + "="@ + "0"@ + "\n"@ + "\n"@ + "[Service]"@ + "\n"@ + "Type"@ + "="@ + "exec"@ + "\n"@ + "User"@ + "="@ + "root"@ + "\n"@ + "Group"@ + "="@ + "root"@ + "\n"@ + "UMask"@ + "="@ + "0077"@ + "\n"@ + "ExecStart"@ + "="@);
}

#[verifier::spinoff_prover]
proof fn lemma_words_restart()
    ensures
        "\nRestart=always\nRestartSec="@ == "\n"@ + "Restart"@ + "="@ + "always"@ + "\n"@ + "RestartSec"@ + "="@,
{
    reveal_strlit("\nRestart=always\nRestartSec=");
    reveal_strlit("\n");
    reveal_strlit("Restart");
    reveal_strlit("=");
    reveal_strlit("always");
    reveal_strlit("RestartSec");
    assert("\nRestart=always\nRestartSec="@ =~= "\n"@ + "Restart"@ + "="@ + "always"@ + "\n"@ + "RestartSec"@ + "="@);
}

#[verifier::spinoff_prover]
proof fn lemma_words_directory()
    ensures
        "s\nRuntimeDirectory="@ == "s"@ + "\n"@ + "RuntimeDirectory"@ + "="@,
{
    reveal_strlit("s\nRuntimeDirectory=");
    reveal_strlit("s");
    reveal_strlit("\n");
    reveal_strlit("RuntimeDirectory");
    reveal_strlit("=");
    assert("s\nRuntimeDirectory="@ =~= "s"@ + "\n"@ + "RuntimeDirectory"@ + "="@);
}

#[verifier::spinoff_prover]
proof fn lemma_words_runtime()
    ensures
        " capulus\n\
           RuntimeDirectoryMode=0755\n\
           RuntimeDirectoryPreserve=yes\n\
           StateDirectory="@ == " capulus"@ + "\n"@ + "RuntimeDirectoryMode"@ + "="@ + "0755"@ + "\n"@ + "RuntimeDirectoryPreserve"@ + "="@ + "yes"@ + "\n"@ + "StateDirectory"@ + "="@,
{
    reveal_strlit(" capulus\n\
           RuntimeDirectoryMode=0755\n\
           RuntimeDirectoryPreserve=yes\n\
           StateDirectory=");
    reveal_strlit(" capulus");
    reveal_strlit("\n");
    reveal_strlit("RuntimeDirectoryMode");
    reveal_strlit("=");
    reveal_strlit("0755");
    reveal_strlit("RuntimeDirectoryPreserve");
    reveal_strlit("yes");
    reveal_strlit("StateDirectory");
    assert(" capulus\n\
           RuntimeDirectoryMode=0755\n\
           RuntimeDirectoryPreserve=yes\n\
           StateDirectory="@ =~= " capulus"@ + "\n"@ + "RuntimeDirectoryMode"@ + "="@ + "0755"@ + "\n"@ + "RuntimeDirectoryPreserve"@ + "="@ + "yes"@ + "\n"@ + "StateDirectory"@ + "="@);
}

#[verifier::spinoff_prover]
proof fn lemma_words_state()
    ensures
        "\nStateDirectoryMode="@ == "\n"@ + "StateDirectoryMode"@ + "="@,
{
    reveal_strlit("\nStateDirectoryMode=");
    reveal_strlit("\n");
    reveal_strlit("StateDirectoryMode");
    reveal_strlit("=");
    assert("\nStateDirectoryMode="@ =~= "\n"@ + "StateDirectoryMode"@ + "="@);
}

#[verifier::spinoff_prover]
proof fn lemma_words_install()
    ensures
        "\n[Install]\nWantedBy=multi-user.target\n"@ == "\n"@ + "[Install]"@ + "\n"@ + "WantedBy"@ + "="@ + "multi-user.target"@ + "\n"@,
{
    reveal_strlit("\n[Install]\nWantedBy=multi-user.target\n");
    reveal_strlit("\n");
    reveal_strlit("[Install]");
    reveal_strlit("WantedBy");
    reveal_strlit("=");
    reveal_strlit("multi-user.target");
    assert("\n[Install]\nWantedBy=multi-user.target\n"@ =~= "\n"@ + "[Install]"@ + "\n"@ + "WantedBy"@ + "="@ + "multi-user.target"@ + "\n"@);
}

#[verifier::spinoff_prover]
proof fn lemma_words_listen()
    ensures
        " socket\n\n[Socket]\nListenStream="@ == " socket"@ + "\n"@ + "\n"@ + "[Socket]"@ + "\n"@ + "ListenStream"@ + "="@,
{
    reveal_strlit(" socket\n\n[Socket]\nListenStream=");
    reveal_strlit(" socket");
    reveal_strlit("\n");
    reveal_strlit("[Socket]");
    reveal_strlit("ListenStream");
    reveal_strlit("=");
    assert(" socket\n\n[Socket]\nListenStream="@ =~= " socket"@ + "\n"@ + "\n"@ + "[Socket]"@ + "\n"@ + "ListenStream"@ + "="@);
}

#[verifier::spinoff_prover]
proof fn lemma_words_descriptor()
    ensures
        "\nFileDescriptorName="@ == "\n"@ + "FileDescriptorName"@ + "="@,
{
    reveal_strlit("\nFileDescriptorName=");
    reveal_strlit("\n");
    reveal_strlit("FileDescriptorName");
    reveal_strlit("=");
    assert("\nFileDescriptorName="@ =~= "\n"@ + "FileDescriptorName"@ + "="@);
}

#[verifier::spinoff_prover]
proof fn lemma_words_service()
    ensures
        "\nService="@ == "\n"@ + "Service"@ + "="@,
{
    reveal_strlit("\nService=");
    reveal_strlit("\n");
    reveal_strlit("Service");
    reveal_strlit("=");
    assert("\nService="@ =~= "\n"@ + "Service"@ + "="@);
}

#[verifier::spinoff_prover]
proof fn lemma_words_accept()
    ensures
        "\nAccept=no\nSocketMode="@ == "\n"@ + "Accept"@ + "="@ + "no"@ + "\n"@ + "SocketMode"@ + "="@,
{
    reveal_strlit("\nAccept=no\nSocketMode=");
    reveal_strlit("\n");
    reveal_strlit("Accept");
    reveal_strlit("=");
    reveal_strlit("no");
    reveal_strlit("SocketMode");
    assert("\nAccept=no\nSocketMode="@ =~= "\n"@ + "Accept"@ + "="@ + "no"@ + "\n"@ + "SocketMode"@ + "="@);
}

#[verifier::spinoff_prover]
proof fn lemma_words_group()
    ensures
        "SocketGroup="@ == "SocketGroup"@ + "="@,
{
    reveal_strlit("SocketGroup=");
    reveal_strlit("SocketGroup");
    reveal_strlit("=");
    assert("SocketGroup="@ =~= "SocketGroup"@ + "="@);
}

#[verifier::spinoff_prover]
proof fn lemma_words_socket_end()
    ensures
        "DirectoryMode=0755\n\
           RemoveOnStop=yes\n\
           \n\
           [Install]\n\
           WantedBy=sockets.target\n"@ == "DirectoryMode"@ + "="@ + "0755"@ + "\n"@ + "RemoveOnStop"@ + "="@ + "yes"@ + "\n"@ + "\n"@ + "[Install]"@ + "\n"@ + "WantedBy"@ + "="@ + "sockets.target"@ + "\n"@,
{
    reveal_strlit("DirectoryMode=0755\n\
           RemoveOnStop=yes\n\
           \n\
           [Install]\n\
           WantedBy=sockets.target\n");
    reveal_strlit("DirectoryMode");
    reveal_strlit("=");
    reveal_strlit("0755");
    reveal_strlit("\n");
    reveal_strlit("RemoveOnStop");
    reveal_strlit("yes");
    reveal_strlit("[Install]");
    reveal_strlit("WantedBy");
    reveal_strlit("sockets.target");
    assert("DirectoryMode=0755\n\
           RemoveOnStop=yes\n\
           \n\
           [Install]\n\
           WantedBy=sockets.target\n"@ =~= "DirectoryMode"@ + "="@ + "0755"@ + "\n"@ + "RemoveOnStop"@ + "="@ + "yes"@ + "\n"@ + "\n"@ + "[Install]"@ + "\n"@ + "WantedBy"@ + "="@ + "sockets.target"@ + "\n"@);
}

#[verifier::spinoff_prover]
proof fn lemma_words_device()
    ensures
        "DeviceAllow="@ == "DeviceAllow"@ + "="@,
{
    reveal_strlit("DeviceAllow=");
    reveal_strlit("DeviceAllow");
    reveal_strlit("=");
    assert("DeviceAllow="@ =~= "DeviceAllow"@ + "="@);
}

#[verifier::spinoff_prover]
proof fn lemma_words_device_end()
    ensures
        " rw\n"@ == " rw"@ + "\n"@,
{
    reveal_strlit(" rw\n");
    reveal_strlit(" rw");
    reveal_strlit("\n");
    assert(" rw\n"@ =~= " rw"@ + "\n"@);
}

#[verifier::spinoff_prover]
proof fn lemma_socket_dependencies(o: ManagedProductOptions)
    ensures
        socket_dependencies(o) == "Requires"@ + "="@ + needed_sockets(o) + "\n"@ + "After"@ + "="@
            + needed_sockets(o) + "\n"@,
{
    let mgmt = management_socket_name(o.product@);
    let app = application_socket_name(o.product@);
    let x = needed_sockets(o);
    if o.application_socket is SystemdActivated {
        lemma_words_requires();
        let z1 = "Requires="@;
        let z2 = "Requires"@ + "="@;
        assert(z1 == z2);
        let z3 = z1 + app;
        let z4 = z2 + app;
        assert(z3 == z4);
        let z5 = z3 + " "@;
        let z6 = z4 + " "@;
        assert(z5 == z6);
        let z7 = z5 + mgmt;
        let z8 = z6 + mgmt;
        assert(z7 == z8);
        lemma_words_after();
        let z9 = z7 + "\nAfter="@;
        lemma_app3(z8, "\n"@, "After"@, "="@);
        let z10 = z8 + "\n"@ + "After"@ + "="@;
        assert(z9 == z10);
        let z11 = z9 + app;
        let z12 = z10 + app;
        assert(z11 == z12);
        let z13 = z11 + " "@;
        let z14 = z12 + " "@;
        assert(z13 == z14);
        let z15 = z13 + mgmt;
        let z16 = z14 + mgmt;
        assert(z15 == z16);
        let z17 = z15 + "\n"@;
        let z18 = z16 + "\n"@;
        assert(z17 == z18);
        let r1 = "Requires"@;
        let r2 = "Requires"@;
        assert(r1 == r2);
        let r3 = r1 + "="@;
        let r4 = r2 + "="@;
        assert(r3 == r4);
        let r5 = r3 + x;
        lemma_app3(r4, app, " "@, mgmt);
        let r6 = r4 + app + " "@ + mgmt;
        assert(r5 == r6);
        let r7 = r5 + "\n"@;
        let r8 = r6 + "\n"@;
        assert(r7 == r8);
        let r9 = r7 + "After"@;
        let r10 = r8 + "After"@;
        assert(r9 == r10);
        let r11 = r9 + "="@;
        let r12 = r10 + "="@;
        assert(r11 == r12);
        let r13 = r11 + x;
        lemma_app3(r12, app, " "@, mgmt);
        let r14 = r12 + app + " "@ + mgmt;
        assert(r13 == r14);
        let r15 = r13 + "\n"@;
        let r16 = r14 + "\n"@;
        assert(r15 == r16);
        assert(z18 == r16);
    } else {
        lemma_words_requires();
        let w1 = "Requires="@;
        let w2 = "Requires"@ + "="@;
        assert(w1 == w2);
        let w3 = w1 + x;
        let w4 = w2 + x;
        assert(w3 == w4);
        lemma_words_after();
        let w5 = w3 + "\nAfter="@;
        lemma_app3(w4, "\n"@, "After"@, "="@);
        let w6 = w4 + "\n"@ + "After"@ + "="@;
        assert(w5 == w6);
        let w7 = w5 + x;
        let w8 = w6 + x;
        assert(w7 == w8);
        let w9 = w7 + "\n"@;
        let w10 = w8 + "\n"@;
        assert(w9 == w10);
    }
}

#[verifier::spinoff_prover]
proof fn lemma_network(required: bool)
    ensures
        network_text(required) == lines_of(network_settings(required)),
{
    let none = Seq::<(Seq<char>, Seq<char>)>::empty();
    let net = network_settings(required);
    if required {
        lemma_words_network();
        let a = net[0];
        let b = net[1];
        lemma_lines_two(a, b);
        assert(net =~= seq![a, b]);
        lemma_app4(line_of(a) + "\n"@, "Wants"@, "="@, "network-online.target"@, "\n"@);
        assert(line_of(b) + "\n"@ == "Wants"@ + "="@ + "network-online.target"@ + "\n"@);
    } else {
        assert(net =~= none);
        reveal_strlit("");
        assert(""@ =~= Seq::<char>::empty());
    }
}

#[verifier::spinoff_prover]
proof fn lemma_dependencies(o: ManagedProductOptions)
    ensures
        "[Unit]\nDescription="@ + o.service.description@ + "\n"@ + socket_dependencies(o)
            + network_text(o.service.network_required) + "StartLimitIntervalSec"@ + "="@ + "0"@
            + "\n"@ == ("[Unit]"@ + "\n"@) + lines_of(dependency_settings(o)),
{
    let none = Seq::<(Seq<char>, Seq<char>)>::empty();
    let x = needed_sockets(o);
    let base = seq![("Description"@, o.service.description@), ("Requires"@, x), ("After"@, x)];
    let net = network_settings(o.service.network_required);
    let l = ("StartLimitIntervalSec"@, "0"@);
    let h = "[Unit]"@ + "\n"@;
    lemma_words_unit_start();
    let x1 = "[Unit]\nDescription="@;
    let x2 = "[Unit]"@ + "\n"@ + "Description"@ + "="@;
    assert(x1 == x2);
    let x3 = x1 + o.service.description@;
    let x4 = x2 + o.service.description@;
    assert(x3 == x4);
    let x5 = x3 + "\n"@;
    let x6 = x4 + "\n"@;
    assert(x5 == x6);
    lemma_socket_dependencies(o);
    let x7 = x5 + socket_dependencies(o);
    lemma_app8(x6, "Requires"@, "="@, x, "\n"@, "After"@, "="@, x, "\n"@);
    let x8 = x6 + "Requires"@ + "="@ + x + "\n"@ + "After"@ + "="@ + x + "\n"@;
    assert(x7 == x8);
    let y1 = ("[Unit]"@ + "\n"@);
    let y2 = "[Unit]"@ + "\n"@;
    assert(y1 == y2);
    let y3 = y1 + lines_of(base);
    lemma_plus_nothing(y2);
    let y4 = ("Description"@, o.service.description@);
    lemma_grow(y2, none, y4);
    let y5 = none.push(y4);
    let y6 = y2 + "Description"@ + "="@ + o.service.description@ + "\n"@;
    assert(y2 + lines_of(y5) == y6);
    let y7 = ("Requires"@, x);
    lemma_grow(y2, y5, y7);
    let y8 = y5.push(y7);
    let y9 = y6 + "Requires"@ + "="@ + x + "\n"@;
    assert(y2 + lines_of(y8) == y9);
    let y10 = ("After"@, x);
    lemma_grow(y2, y8, y10);
    let y11 = y8.push(y10);
    let y12 = y9 + "After"@ + "="@ + x + "\n"@;
    assert(y2 + lines_of(y11) == y12);
    assert(y11 =~= base);
    assert(y3 == y12);
    assert(x8 == y12);
    assert(x7 == h + lines_of(base));
    lemma_network(o.service.network_required);
    lemma_lines_concat(base, net);
    lemma_app2(h, lines_of(base), lines_of(net));
    assert(h + lines_of(base) + lines_of(net) == h + lines_of(base + net));
    lemma_grow(h, base + net, l);
    assert((base + net).push(l) =~= dependency_settings(o));
}

/// The service unit is a file of three sections.
#[verifier::spinoff_prover]
#[verifier::rlimit(40)]
proof fn lemma_service_sections(o: ManagedProductOptions)
    ensures
        service_unit(o) == three_sections(
            "[Unit]"@,
            dependency_settings(o),
            "[Service]"@,
            runtime_settings(o) + hardening_settings(o.service.hardening),
            "[Install]"@,
            wanted_by("multi-user.target"@),
        ),
{
    let none = Seq::<(Seq<char>, Seq<char>)>::empty();
    let delay = text::decimal(o.service.restart_delay@ / (NANOS_PER_SECOND as nat));
    let mode = mode_text(o.service.state_directory_mode);
    let hard = hardening_text(o.service.hardening);
    let running = runtime_settings(o);
    let wanted = wanted_by("multi-user.target"@);
    let head = "[Unit]\nDescription="@ + o.service.description@ + "\n"@ + socket_dependencies(o)
        + network_text(o.service.network_required);
    let u = ("[Unit]"@ + "\n"@) + lines_of(dependency_settings(o));
    let x1 = head;
    let x2 = head;
    assert(x1 == x2);
    lemma_words_start();
    let x3 = x1 + "StartLimitIntervalSec=0\n\
           \n\
           [Service]\n\
           Type=exec\n\
           User=root\n\
           Group=root\n\
           UMask=0077\n\
           ExecStart="@;
    lemma_app25(x2, "StartLimitIntervalSec"@, "="@, "0"@, "\n"@, "\n"@, "[Service]"@, "\n"@, "Type"@, "="@, "exec"@, "\n"@, "User"@, "="@, "root"@, "\n"@, "Group"@, "="@, "root"@, "\n"@, "UMask"@, "="@, "0077"@, "\n"@, "ExecStart"@, "="@);
    let x4 = x2 + "StartLimitIntervalSec"@ + "="@ + "0"@ + "\n"@ + "\n"@ + "[Service]"@ + "\n"@ + "Type"@ + "="@ + "exec"@ + "\n"@ + "User"@ + "="@ + "root"@ + "\n"@ + "Group"@ + "="@ + "root"@ + "\n"@ + "UMask"@ + "="@ + "0077"@ + "\n"@ + "ExecStart"@ + "="@;
    assert(x3 == x4);
    let x5 = x3 + quoted(o.service.executable@);
    let x6 = x4 + quoted(o.service.executable@);
    assert(x5 == x6);
    let x7 = x5 + argument_words(o.service.arguments@);
    let x8 = x6 + argument_words(o.service.arguments@);
    assert(x7 == x8);
    lemma_words_restart();
    let x9 = x7 + "\nRestart=always\nRestartSec="@;
    lemma_app7(x8, "\n"@, "Restart"@, "="@, "always"@, "\n"@, "RestartSec"@, "="@);
    let x10 = x8 + "\n"@ + "Restart"@ + "="@ + "always"@ + "\n"@ + "RestartSec"@ + "="@;
    assert(x9 == x10);
    let x11 = x9 + delay;
    let x12 = x10 + delay;
    assert(x11 == x12);
    lemma_words_directory();
    let x13 = x11 + "s\nRuntimeDirectory="@;
    lemma_app4(x12, "s"@, "\n"@, "RuntimeDirectory"@, "="@);
    let x14 = x12 + "s"@ + "\n"@ + "RuntimeDirectory"@ + "="@;
    assert(x13 == x14);
    let x15 = x13 + o.product@;
    let x16 = x14 + o.product@;
    assert(x15 == x16);
    lemma_words_runtime();
    let x17 = x15 + " capulus\n\
           RuntimeDirectoryMode=0755\n\
           RuntimeDirectoryPreserve=yes\n\
           StateDirectory="@;
    lemma_app12(x16, " capulus"@, "\n"@, "RuntimeDirectoryMode"@, "="@, "0755"@, "\n"@, "RuntimeDirectoryPreserve"@, "="@, "yes"@, "\n"@, "StateDirectory"@, "="@);
    let x18 = x16 + " capulus"@ + "\n"@ + "RuntimeDirectoryMode"@ + "="@ + "0755"@ + "\n"@ + "RuntimeDirectoryPreserve"@ + "="@ + "yes"@ + "\n"@ + "StateDirectory"@ + "="@;
    assert(x17 == x18);
    let x19 = x17 + o.product@;
    let x20 = x18 + o.product@;
    assert(x19 == x20);
    lemma_words_state();
    let x21 = x19 + "\nStateDirectoryMode="@;
    lemma_app3(x20, "\n"@, "StateDirectoryMode"@, "="@);
    let x22 = x20 + "\n"@ + "StateDirectoryMode"@ + "="@;
    assert(x21 == x22);
    let x23 = x21 + mode;
    let x24 = x22 + mode;
    assert(x23 == x24);
    let x25 = x23 + "\n"@;
    let x26 = x24 + "\n"@;
    assert(x25 == x26);
    let x27 = x25 + hard;
    let x28 = x26 + hard;
    assert(x27 == x28);
    lemma_words_install();
    let x29 = x27 + "\n[Install]\nWantedBy=multi-user.target\n"@;
    lemma_app7(x28, "\n"@, "[Install]"@, "\n"@, "WantedBy"@, "="@, "multi-user.target"@, "\n"@);
    let x30 = x28 + "\n"@ + "[Install]"@ + "\n"@ + "WantedBy"@ + "="@ + "multi-user.target"@ + "\n"@;
    assert(x29 == x30);
    lemma_dependencies(o);
    let y1 = u;
    let y2 = head + "StartLimitIntervalSec"@ + "="@ + "0"@ + "\n"@;
    assert(y1 == y2);
    let y3 = y1 + "\n"@;
    let y4 = y2 + "\n"@;
    assert(y3 == y4);
    let y5 = y3 + ("[Service]"@ + "\n"@);
    lemma_app2(y4, "[Service]"@, "\n"@);
    let y6 = y4 + "[Service]"@ + "\n"@;
    assert(y5 == y6);
    let y7 = y5 + lines_of(running);
    lemma_plus_nothing(y6);
    let y8 = ("Type"@, "exec"@);
    lemma_grow(y6, none, y8);
    let y9 = none.push(y8);
    let y10 = y6 + "Type"@ + "="@ + "exec"@ + "\n"@;
    assert(y6 + lines_of(y9) == y10);
    let y11 = ("User"@, "root"@);
    lemma_grow(y6, y9, y11);
    let y12 = y9.push(y11);
    let y13 = y10 + "User"@ + "="@ + "root"@ + "\n"@;
    assert(y6 + lines_of(y12) == y13);
    let y14 = ("Group"@, "root"@);
    lemma_grow(y6, y12, y14);
    let y15 = y12.push(y14);
    let y16 = y13 + "Group"@ + "="@ + "root"@ + "\n"@;
    assert(y6 + lines_of(y15) == y16);
    let y17 = ("UMask"@, "0077"@);
    lemma_grow(y6, y15, y17);
    let y18 = y15.push(y17);
    let y19 = y16 + "UMask"@ + "="@ + "0077"@ + "\n"@;
    assert(y6 + lines_of(y18) == y19);
    let y20 = ("ExecStart"@, quoted(o.service.executable@) + argument_words(o.service.arguments@));
    lemma_grow(y6, y18, y20);
    let y21 = y18.push(y20);
    lemma_app2(y19 + "ExecStart"@ + "="@, quoted(o.service.executable@), argument_words(o.service.arguments@));
    let y22 = y19 + "ExecStart"@ + "="@ + quoted(o.service.executable@) + argument_words(o.service.arguments@) + "\n"@;
    assert(y6 + lines_of(y21) == y22);
    let y23 = ("Restart"@, "always"@);
    lemma_grow(y6, y21, y23);
    let y24 = y21.push(y23);
    let y25 = y22 + "Restart"@ + "="@ + "always"@ + "\n"@;
    assert(y6 + lines_of(y24) == y25);
    let y26 = ("RestartSec"@, delay + "s"@);
    lemma_grow(y6, y24, y26);
    let y27 = y24.push(y26);
    lemma_app2(y25 + "RestartSec"@ + "="@, delay, "s"@);
    let y28 = y25 + "RestartSec"@ + "="@ + delay + "s"@ + "\n"@;
    assert(y6 + lines_of(y27) == y28);
    let y29 = ("RuntimeDirectory"@, o.product@ + " capulus"@);
    lemma_grow(y6, y27, y29);
    let y30 = y27.push(y29);
    lemma_app2(y28 + "RuntimeDirectory"@ + "="@, o.product@, " capulus"@);
    let y31 = y28 + "RuntimeDirectory"@ + "="@ + o.product@ + " capulus"@ + "\n"@;
    assert(y6 + lines_of(y30) == y31);
    let y32 = ("RuntimeDirectoryMode"@, "0755"@);
    lemma_grow(y6, y30, y32);
    let y33 = y30.push(y32);
    let y34 = y31 + "RuntimeDirectoryMode"@ + "="@ + "0755"@ + "\n"@;
    assert(y6 + lines_of(y33) == y34);
    let y35 = ("RuntimeDirectoryPreserve"@, "yes"@);
    lemma_grow(y6, y33, y35);
    let y36 = y33.push(y35);
    let y37 = y34 + "RuntimeDirectoryPreserve"@ + "="@ + "yes"@ + "\n"@;
    assert(y6 + lines_of(y36) == y37);
    let y38 = ("StateDirectory"@, o.product@);
    lemma_grow(y6, y36, y38);
    let y39 = y36.push(y38);
    let y40 = y37 + "StateDirectory"@ + "="@ + o.product@ + "\n"@;
    assert(y6 + lines_of(y39) == y40);
    let y41 = ("StateDirectoryMode"@, mode);
    lemma_grow(y6, y39, y41);
    let y42 = y39.push(y41);
    let y43 = y40 + "StateDirectoryMode"@ + "="@ + mode + "\n"@;
    assert(y6 + lines_of(y42) == y43);
    assert(y42 =~= running);
    assert(y7 == y43);
    let y44 = y7 + hard;
    let y45 = y43 + hard;
    assert(y44 == y45);
    let y46 = y44 + "\n"@;
    let y47 = y45 + "\n"@;
    assert(y46 == y47);
    let y48 = y46 + ("[Install]"@ + "\n"@);
    lemma_app2(y47, "[Install]"@, "\n"@);
    let y49 = y47 + "[Install]"@ + "\n"@;
    assert(y48 == y49);
    let y50 = y48 + lines_of(wanted);
    lemma_plus_nothing(y49);
    let y51 = ("WantedBy"@, "multi-user.target"@);
    lemma_grow(y49, none, y51);
    let y52 = none.push(y51);
    let y53 = y49 + "WantedBy"@ + "="@ + "multi-user.target"@ + "\n"@;
    assert(y49 + lines_of(y52) == y53);
    assert(y52 =~= wanted);
    assert(y50 == y53);
    assert(x30 == y53);
    lemma_hardening(o.service.hardening);
    lemma_lines_concat(running, hardening_settings(o.service.hardening));
    lemma_app2(u + "\n"@ + ("[Service]"@ + "\n"@), lines_of(running), hard);
}

#[verifier::spinoff_prover]
proof fn lemma_group(group: Option<String>)
    ensures
        group_text(group) == lines_of(group_settings(group)),
{
    let none = Seq::<(Seq<char>, Seq<char>)>::empty();
    let g = group_settings(group);
    if let Some(name) = group {
        let p = ("SocketGroup"@, name@);
        lemma_words_group();
        lemma_lines_two(p, p);
        assert(g =~= seq![p]);
    } else {
        assert(g =~= none);
    }
}

/// The unit of a socket is a file of three sections.
#[verifier::spinoff_prover]
#[verifier::rlimit(40)]
proof fn lemma_socket_sections(product: Seq<char>, descriptor: Seq<char>, socket: SocketOptions)
    ensures
        socket_unit(product, descriptor, socket) == three_sections(
            "[Unit]"@,
            socket_description(product, descriptor),
            "[Socket]"@,
            socket_settings(product, descriptor, socket),
            "[Install]"@,
            wanted_by("sockets.target"@),
        ),
{
    let none = Seq::<(Seq<char>, Seq<char>)>::empty();
    let grouped = group_text(socket.group);
    let described = socket_description(product, descriptor);
    let wanted = wanted_by("sockets.target"@);
    let first = seq![
        ("ListenStream"@, socket.path@),
        ("FileDescriptorName"@, descriptor),
        ("Service"@, service_name(product)),
        ("Accept"@, "no"@),
        ("SocketMode"@, mode_text(socket.mode)),
    ];
    let last = seq![("DirectoryMode"@, "0755"@), ("RemoveOnStop"@, "yes"@)];
    lemma_words_unit_start();
    let x1 = "[Unit]\nDescription="@;
    let x2 = "[Unit]"@ + "\n"@ + "Description"@ + "="@;
    assert(x1 == x2);
    let x3 = x1 + product;
    let x4 = x2 + product;
    assert(x3 == x4);
    let x5 = x3 + " "@;
    let x6 = x4 + " "@;
    assert(x5 == x6);
    let x7 = x5 + descriptor;
    let x8 = x6 + descriptor;
    assert(x7 == x8);
    lemma_words_listen();
    let x9 = x7 + " socket\n\n[Socket]\nListenStream="@;
    lemma_app7(x8, " socket"@, "\n"@, "\n"@, "[Socket]"@, "\n"@, "ListenStream"@, "="@);
    let x10 = x8 + " socket"@ + "\n"@ + "\n"@ + "[Socket]"@ + "\n"@ + "ListenStream"@ + "="@;
    assert(x9 == x10);
    let x11 = x9 + socket.path@;
    let x12 = x10 + socket.path@;
    assert(x11 == x12);
    lemma_words_descriptor();
    let x13 = x11 + "\nFileDescriptorName="@;
    lemma_app3(x12, "\n"@, "FileDescriptorName"@, "="@);
    let x14 = x12 + "\n"@ + "FileDescriptorName"@ + "="@;
    assert(x13 == x14);
    let x15 = x13 + descriptor;
    let x16 = x14 + descriptor;
    assert(x15 == x16);
    lemma_words_service();
    let x17 = x15 + "\nService="@;
    lemma_app3(x16, "\n"@, "Service"@, "="@);
    let x18 = x16 + "\n"@ + "Service"@ + "="@;
    assert(x17 == x18);
    let x19 = x17 + service_name(product);
    let x20 = x18 + service_name(product);
    assert(x19 == x20);
    lemma_words_accept();
    let x21 = x19 + "\nAccept=no\nSocketMode="@;
    lemma_app7(x20, "\n"@, "Accept"@, "="@, "no"@, "\n"@, "SocketMode"@, "="@);
    let x22 = x20 + "\n"@ + "Accept"@ + "="@ + "no"@ + "\n"@ + "SocketMode"@ + "="@;
    assert(x21 == x22);
    let x23 = x21 + mode_text(socket.mode);
    let x24 = x22 + mode_text(socket.mode);
    assert(x23 == x24);
    let x25 = x23 + "\n"@;
    let x26 = x24 + "\n"@;
    assert(x25 == x26);
    let x27 = x25 + grouped;
    let x28 = x26 + grouped;
    assert(x27 == x28);
    lemma_words_socket_end();
    let x29 = x27 + "DirectoryMode=0755\n\
           RemoveOnStop=yes\n\
           \n\
           [Install]\n\
           WantedBy=sockets.target\n"@;
    lemma_app15(x28, "DirectoryMode"@, "="@, "0755"@, "\n"@, "RemoveOnStop"@, "="@, "yes"@, "\n"@, "\n"@, "[Install]"@, "\n"@, "WantedBy"@, "="@, "sockets.target"@, "\n"@);
    let x30 = x28 + "DirectoryMode"@ + "="@ + "0755"@ + "\n"@ + "RemoveOnStop"@ + "="@ + "yes"@ + "\n"@ + "\n"@ + "[Install]"@ + "\n"@ + "WantedBy"@ + "="@ + "sockets.target"@ + "\n"@;
    assert(x29 == x30);
    let y1 = ("[Unit]"@ + "\n"@);
    let y2 = "[Unit]"@ + "\n"@;
    assert(y1 == y2);
    let y3 = y1 + lines_of(described);
    lemma_plus_nothing(y2);
    let y4 = ("Description"@, product + " "@ + descriptor + " socket"@);
    lemma_grow(y2, none, y4);
    let y5 = none.push(y4);
    lemma_app4(y2 + "Description"@ + "="@, product, " "@, descriptor, " socket"@);
    let y6 = y2 + "Description"@ + "="@ + product + " "@ + descriptor + " socket"@ + "\n"@;
    assert(y2 + lines_of(y5) == y6);
    assert(y5 =~= described);
    assert(y3 == y6);
    let y7 = y3 + "\n"@;
    let y8 = y6 + "\n"@;
    assert(y7 == y8);
    let y9 = y7 + ("[Socket]"@ + "\n"@);
    lemma_app2(y8, "[Socket]"@, "\n"@);
    let y10 = y8 + "[Socket]"@ + "\n"@;
    assert(y9 == y10);
    let y11 = y9 + lines_of(first);
    lemma_plus_nothing(y10);
    let y12 = ("ListenStream"@, socket.path@);
    lemma_grow(y10, none, y12);
    let y13 = none.push(y12);
    let y14 = y10 + "ListenStream"@ + "="@ + socket.path@ + "\n"@;
    assert(y10 + lines_of(y13) == y14);
    let y15 = ("FileDescriptorName"@, descriptor);
    lemma_grow(y10, y13, y15);
    let y16 = y13.push(y15);
    let y17 = y14 + "FileDescriptorName"@ + "="@ + descriptor + "\n"@;
    assert(y10 + lines_of(y16) == y17);
    let y18 = ("Service"@, service_name(product));
    lemma_grow(y10, y16, y18);
    let y19 = y16.push(y18);
    let y20 = y17 + "Service"@ + "="@ + service_name(product) + "\n"@;
    assert(y10 + lines_of(y19) == y20);
    let y21 = ("Accept"@, "no"@);
    lemma_grow(y10, y19, y21);
    let y22 = y19.push(y21);
    let y23 = y20 + "Accept"@ + "="@ + "no"@ + "\n"@;
    assert(y10 + lines_of(y22) == y23);
    let y24 = ("SocketMode"@, mode_text(socket.mode));
    lemma_grow(y10, y22, y24);
    let y25 = y22.push(y24);
    let y26 = y23 + "SocketMode"@ + "="@ + mode_text(socket.mode) + "\n"@;
    assert(y10 + lines_of(y25) == y26);
    assert(y25 =~= first);
    assert(y11 == y26);
    let y27 = y11 + grouped;
    let y28 = y26 + grouped;
    assert(y27 == y28);
    let y29 = y27 + lines_of(last);
    lemma_plus_nothing(y28);
    let y30 = ("DirectoryMode"@, "0755"@);
    lemma_grow(y28, none, y30);
    let y31 = none.push(y30);
    let y32 = y28 + "DirectoryMode"@ + "="@ + "0755"@ + "\n"@;
    assert(y28 + lines_of(y31) == y32);
    let y33 = ("RemoveOnStop"@, "yes"@);
    lemma_grow(y28, y31, y33);
    let y34 = y31.push(y33);
    let y35 = y32 + "RemoveOnStop"@ + "="@ + "yes"@ + "\n"@;
    assert(y28 + lines_of(y34) == y35);
    assert(y34 =~= last);
    assert(y29 == y35);
    let y36 = y29 + "\n"@;
    let y37 = y35 + "\n"@;
    assert(y36 == y37);
    let y38 = y36 + ("[Install]"@ + "\n"@);
    lemma_app2(y37, "[Install]"@, "\n"@);
    let y39 = y37 + "[Install]"@ + "\n"@;
    assert(y38 == y39);
    let y40 = y38 + lines_of(wanted);
    lemma_plus_nothing(y39);
    let y41 = ("WantedBy"@, "sockets.target"@);
    lemma_grow(y39, none, y41);
    let y42 = none.push(y41);
    let y43 = y39 + "WantedBy"@ + "="@ + "sockets.target"@ + "\n"@;
    assert(y39 + lines_of(y42) == y43);
    assert(y42 =~= wanted);
    assert(y40 == y43);
    assert(x30 == y43);
    lemma_group(socket.group);
    let middle = group_settings(socket.group);
    let v = ("[Unit]"@ + "\n"@) + lines_of(described) + "\n"@ + ("[Socket]"@ + "\n"@);
    lemma_lines_concat(first, middle);
    lemma_lines_concat(first + middle, last);
    lemma_app3(v, lines_of(first), lines_of(middle), lines_of(last));
    assert(first + middle + last =~= socket_settings(product, descriptor, socket));
}

// ---------------------------------------------------------------------------
// The values of settings
// ---------------------------------------------------------------------------

/// A key that one setting has gives the value of that setting.
proof fn lemma_sole(settings: Seq<(Seq<char>, Seq<char>)>, k: int)
    requires
        0 <= k < settings.len(),
        forall|i: int|
            0 <= i < settings.len() && i != k ==> (#[trigger] settings[i]).0 != settings[k].0,
    ensures
        option_values(settings, settings[k].0) == seq![settings[k].1],
{
    let key = settings[k].0;
    let a = settings.take(k);
    let b = seq![settings[k]];
    let c = settings.skip(k + 1);
    assert(settings =~= a + b + c);
    lemma_option_values_concat(a + b, c, key);
    lemma_option_values_concat(a, b, key);
    lemma_no_values(a, key);
    lemma_no_values(c, key);
    lemma_option_values_same(b, key, key);
    assert(b.map_values(|o: (Seq<char>, Seq<char>)| o.1) =~= seq![settings[k].1]);
    assert(option_values(settings, key) =~= seq![settings[k].1]);
}

proof fn lemma_no_values(settings: Seq<(Seq<char>, Seq<char>)>, key: Seq<char>)
    requires
        forall|i: int| 0 <= i < settings.len() ==> (#[trigger] settings[i]).0 != key,
    ensures
        option_values(settings, key) == Seq::<Seq<char>>::empty(),
    decreases settings.len(),
{
    if settings.len() > 0 {
        let front = settings.drop_last();
        assert forall|i: int| 0 <= i < front.len() implies (#[trigger] front[i]).0 != key by {
            assert(settings[i].0 != key);
        }
        lemma_no_values(front, key);
        assert(settings[settings.len() - 1].0 != key);
    }
}

/// The place that a key has among those of the service unit.
spec fn key_place(s: Seq<char>) -> int {
    if s.len() == 4 && s[0] == 'T' && s[3] == 'e' {
        0
    } else if s.len() == 4 && s[0] == 'U' && s[3] == 'r' {
        1
    } else if s.len() == 5 && s[0] == 'G' && s[4] == 'p' {
        2
    } else if s.len() == 5 && s[0] == 'U' && s[4] == 'k' {
        3
    } else if s.len() == 9 && s[0] == 'E' && s[8] == 't' {
        4
    } else if s.len() == 7 && s[0] == 'R' && s[6] == 't' {
        5
    } else if s.len() == 10 && s[0] == 'R' && s[9] == 'c' {
        6
    } else if s.len() == 16 && s[0] == 'R' && s[15] == 'y' {
        7
    } else if s.len() == 20 && s[0] == 'R' && s[19] == 'e' {
        8
    } else if s.len() == 24 && s[0] == 'R' && s[23] == 'e' {
        9
    } else if s.len() == 14 && s[0] == 'S' && s[13] == 'y' {
        10
    } else if s.len() == 18 && s[0] == 'S' && s[17] == 'e' {
        11
    } else if s.len() == 15 && s[0] == 'N' && s[14] == 's' {
        12
    } else if s.len() == 10 && s[0] == 'P' && s[9] == 'p' {
        13
    } else if s.len() == 12 && s[0] == 'P' && s[11] == 'k' {
        14
    } else if s.len() == 20 && s[0] == 'P' && s[19] == 's' && s[7] == 'C' {
        15
    } else if s.len() == 11 && s[0] == 'P' && s[10] == 'e' {
        16
    } else if s.len() == 17 && s[0] == 'P' && s[16] == 's' {
        17
    } else if s.len() == 20 && s[0] == 'P' && s[19] == 's' && s[7] == 'K' {
        18
    } else if s.len() == 21 && s[0] == 'P' && s[20] == 's' {
        19
    } else if s.len() == 13 && s[0] == 'P' && s[12] == 'm' {
        20
    } else if s.len() == 12 && s[0] == 'D' && s[11] == 'y' {
        21
    } else if s.len() == 16 && s[0] == 'R' && s[15] == 'e' {
        22
    } else if s.len() == 16 && s[0] == 'R' && s[15] == 'D' {
        23
    } else if s.len() == 15 && s[0] == 'L' && s[14] == 'y' {
        24
    } else if s.len() == 22 && s[0] == 'M' && s[21] == 'e' {
        25
    } else if s.len() == 9 && s[0] == 'L' && s[8] == 'E' {
        26
    } else if s.len() == 12 && s[0] == 'L' && s[11] == 'K' {
        27
    } else if s.len() == 14 && s[0] == 'R' && s[13] == 's' {
        28
    } else if s.len() == 11 && s[0] == 'D' && s[10] == 'w' {
        29
    } else {
        -1
    }
}

#[verifier::spinoff_prover]
proof fn lemma_key_places()
    ensures
        key_place("Type"@) == 0,
        key_place("User"@) == 1,
        key_place("Group"@) == 2,
        key_place("UMask"@) == 3,
        key_place("ExecStart"@) == 4,
        key_place("Restart"@) == 5,
        key_place("RestartSec"@) == 6,
        key_place("RuntimeDirectory"@) == 7,
        key_place("RuntimeDirectoryMode"@) == 8,
        key_place("RuntimeDirectoryPreserve"@) == 9,
        key_place("StateDirectory"@) == 10,
        key_place("StateDirectoryMode"@) == 11,
        key_place("NoNewPrivileges"@) == 12,
        key_place("PrivateTmp"@) == 13,
        key_place("ProtectClock"@) == 14,
        key_place("ProtectControlGroups"@) == 15,
        key_place("ProtectHome"@) == 16,
        key_place("ProtectKernelLogs"@) == 17,
        key_place("ProtectKernelModules"@) == 18,
        key_place("ProtectKernelTunables"@) == 19,
        key_place("ProtectSystem"@) == 20,
        key_place("DevicePolicy"@) == 21,
        key_place("RestrictRealtime"@) == 22,
        key_place("RestrictSUIDSGID"@) == 23,
        key_place("LockPersonality"@) == 24,
        key_place("MemoryDenyWriteExecute"@) == 25,
        key_place("LimitCORE"@) == 26,
        key_place("LimitMEMLOCK"@) == 27,
        key_place("ReadWritePaths"@) == 28,
        key_place("DeviceAllow"@) == 29,
{
    reveal_strlit("Type");
    reveal_strlit("User");
    reveal_strlit("Group");
    reveal_strlit("UMask");
    reveal_strlit("ExecStart");
    reveal_strlit("Restart");
    reveal_strlit("RestartSec");
    reveal_strlit("RuntimeDirectory");
    reveal_strlit("RuntimeDirectoryMode");
    reveal_strlit("RuntimeDirectoryPreserve");
    reveal_strlit("StateDirectory");
    reveal_strlit("StateDirectoryMode");
    reveal_strlit("NoNewPrivileges");
    reveal_strlit("PrivateTmp");
    reveal_strlit("ProtectClock");
    reveal_strlit("ProtectControlGroups");
    reveal_strlit("ProtectHome");
    reveal_strlit("ProtectKernelLogs");
    reveal_strlit("ProtectKernelModules");
    reveal_strlit("ProtectKernelTunables");
    reveal_strlit("ProtectSystem");
    reveal_strlit("DevicePolicy");
    reveal_strlit("RestrictRealtime");
    reveal_strlit("RestrictSUIDSGID");
    reveal_strlit("LockPersonality");
    reveal_strlit("MemoryDenyWriteExecute");
    reveal_strlit("LimitCORE");
    reveal_strlit("LimitMEMLOCK");
    reveal_strlit("ReadWritePaths");
    reveal_strlit("DeviceAllow");
}

/// Whether a text can stand as a key.
spec fn key_ok(s: Seq<char>) -> bool {
    s.len() > 0 && s[0] != '[' && !s.contains('=') && one_line(s)
}

#[verifier::spinoff_prover]
proof fn lemma_first_keys()
    ensures
        key_ok("Type"@),
        key_ok("User"@),
        key_ok("Group"@),
        key_ok("UMask"@),
        key_ok("ExecStart"@),
        key_ok("Restart"@),
        key_ok("RestartSec"@),
        key_ok("RuntimeDirectory"@),
        key_ok("RuntimeDirectoryMode"@),
        key_ok("RuntimeDirectoryPreserve"@),
        key_ok("StateDirectory"@),
        key_ok("StateDirectoryMode"@),
        key_ok("NoNewPrivileges"@),
        key_ok("PrivateTmp"@),
        key_ok("ProtectClock"@),
{
    reveal_strlit("Type");
    assert(key_ok("Type"@));
    reveal_strlit("User");
    assert(key_ok("User"@));
    reveal_strlit("Group");
    assert(key_ok("Group"@));
    reveal_strlit("UMask");
    assert(key_ok("UMask"@));
    reveal_strlit("ExecStart");
    assert(key_ok("ExecStart"@));
    reveal_strlit("Restart");
    assert(key_ok("Restart"@));
    reveal_strlit("RestartSec");
    assert(key_ok("RestartSec"@));
    reveal_strlit("RuntimeDirectory");
    assert(key_ok("RuntimeDirectory"@));
    reveal_strlit("RuntimeDirectoryMode");
    assert(key_ok("RuntimeDirectoryMode"@));
    reveal_strlit("RuntimeDirectoryPreserve");
    assert(key_ok("RuntimeDirectoryPreserve"@));
    reveal_strlit("StateDirectory");
    assert(key_ok("StateDirectory"@));
    reveal_strlit("StateDirectoryMode");
    assert(key_ok("StateDirectoryMode"@));
    reveal_strlit("NoNewPrivileges");
    assert(key_ok("NoNewPrivileges"@));
    reveal_strlit("PrivateTmp");
    assert(key_ok("PrivateTmp"@));
    reveal_strlit("ProtectClock");
    assert(key_ok("ProtectClock"@));
}

#[verifier::spinoff_prover]
proof fn lemma_second_keys()
    ensures
        key_ok("ProtectControlGroups"@),
        key_ok("ProtectHome"@),
        key_ok("ProtectKernelLogs"@),
        key_ok("ProtectKernelModules"@),
        key_ok("ProtectKernelTunables"@),
        key_ok("ProtectSystem"@),
        key_ok("DevicePolicy"@),
        key_ok("RestrictRealtime"@),
        key_ok("RestrictSUIDSGID"@),
        key_ok("LockPersonality"@),
        key_ok("MemoryDenyWriteExecute"@),
        key_ok("LimitCORE"@),
        key_ok("LimitMEMLOCK"@),
        key_ok("ReadWritePaths"@),
        key_ok("DeviceAllow"@),
{
    reveal_strlit("ProtectControlGroups");
    assert(key_ok("ProtectControlGroups"@));
    reveal_strlit("ProtectHome");
    assert(key_ok("ProtectHome"@));
    reveal_strlit("ProtectKernelLogs");
    assert(key_ok("ProtectKernelLogs"@));
    reveal_strlit("ProtectKernelModules");
    assert(key_ok("ProtectKernelModules"@));
    reveal_strlit("ProtectKernelTunables");
    assert(key_ok("ProtectKernelTunables"@));
    reveal_strlit("ProtectSystem");
    assert(key_ok("ProtectSystem"@));
    reveal_strlit("DevicePolicy");
    assert(key_ok("DevicePolicy"@));
    reveal_strlit("RestrictRealtime");
    assert(key_ok("RestrictRealtime"@));
    reveal_strlit("RestrictSUIDSGID");
    assert(key_ok("RestrictSUIDSGID"@));
    reveal_strlit("LockPersonality");
    assert(key_ok("LockPersonality"@));
    reveal_strlit("MemoryDenyWriteExecute");
    assert(key_ok("MemoryDenyWriteExecute"@));
    reveal_strlit("LimitCORE");
    assert(key_ok("LimitCORE"@));
    reveal_strlit("LimitMEMLOCK");
    assert(key_ok("LimitMEMLOCK"@));
    reveal_strlit("ReadWritePaths");
    assert(key_ok("ReadWritePaths"@));
    reveal_strlit("DeviceAllow");
    assert(key_ok("DeviceAllow"@));
}

#[verifier::spinoff_prover]
proof fn lemma_other_keys()
    ensures
        key_ok("Description"@),
        key_ok("Requires"@),
        key_ok("After"@),
        key_ok("Wants"@),
        key_ok("StartLimitIntervalSec"@),
        key_ok("WantedBy"@),
        key_ok("ListenStream"@),
        key_ok("FileDescriptorName"@),
        key_ok("Service"@),
        key_ok("Accept"@),
        key_ok("SocketMode"@),
        key_ok("SocketGroup"@),
        key_ok("DirectoryMode"@),
        key_ok("RemoveOnStop"@),
{
    reveal_strlit("Description");
    assert(key_ok("Description"@));
    reveal_strlit("Requires");
    assert(key_ok("Requires"@));
    reveal_strlit("After");
    assert(key_ok("After"@));
    reveal_strlit("Wants");
    assert(key_ok("Wants"@));
    reveal_strlit("StartLimitIntervalSec");
    assert(key_ok("StartLimitIntervalSec"@));
    reveal_strlit("WantedBy");
    assert(key_ok("WantedBy"@));
    reveal_strlit("ListenStream");
    assert(key_ok("ListenStream"@));
    reveal_strlit("FileDescriptorName");
    assert(key_ok("FileDescriptorName"@));
    reveal_strlit("Service");
    assert(key_ok("Service"@));
    reveal_strlit("Accept");
    assert(key_ok("Accept"@));
    reveal_strlit("SocketMode");
    assert(key_ok("SocketMode"@));
    reveal_strlit("SocketGroup");
    assert(key_ok("SocketGroup"@));
    reveal_strlit("DirectoryMode");
    assert(key_ok("DirectoryMode"@));
    reveal_strlit("RemoveOnStop");
    assert(key_ok("RemoveOnStop"@));
}

#[verifier::spinoff_prover]
proof fn lemma_plain_values()
    ensures
        one_line("exec"@),
        one_line("root"@),
        one_line("0077"@),
        one_line("always"@),
        one_line("0755"@),
        one_line("yes"@),
        one_line(" capulus"@),
        one_line("s"@),
        one_line("read-only"@),
        one_line("strict"@),
        one_line("closed"@),
        one_line("0"@),
        one_line("65536"@),
        one_line(" rw"@),
        one_line("network-online.target"@),
        one_line("multi-user.target"@),
        one_line("sockets.target"@),
        one_line("no"@),
        one_line(" socket"@),
        one_line(" "@),
        one_line("-agent.socket"@),
        one_line("-capulus.socket"@),
        one_line("-agent.service"@),
        one_line("capulus"@),
        one_line("application"@),
        one_line("/var/lib/capulus"@),
{
    reveal_strlit("exec");
    assert(one_line("exec"@));
    reveal_strlit("root");
    assert(one_line("root"@));
    reveal_strlit("0077");
    assert(one_line("0077"@));
    reveal_strlit("always");
    assert(one_line("always"@));
    reveal_strlit("0755");
    assert(one_line("0755"@));
    reveal_strlit("yes");
    assert(one_line("yes"@));
    reveal_strlit(" capulus");
    assert(one_line(" capulus"@));
    reveal_strlit("s");
    assert(one_line("s"@));
    reveal_strlit("read-only");
    assert(one_line("read-only"@));
    reveal_strlit("strict");
    assert(one_line("strict"@));
    reveal_strlit("closed");
    assert(one_line("closed"@));
    reveal_strlit("0");
    assert(one_line("0"@));
    reveal_strlit("65536");
    assert(one_line("65536"@));
    reveal_strlit(" rw");
    assert(one_line(" rw"@));
    reveal_strlit("network-online.target");
    assert(one_line("network-online.target"@));
    reveal_strlit("multi-user.target");
    assert(one_line("multi-user.target"@));
    reveal_strlit("sockets.target");
    assert(one_line("sockets.target"@));
    reveal_strlit("no");
    assert(one_line("no"@));
    reveal_strlit(" socket");
    assert(one_line(" socket"@));
    reveal_strlit(" ");
    assert(one_line(" "@));
    reveal_strlit("-agent.socket");
    assert(one_line("-agent.socket"@));
    reveal_strlit("-capulus.socket");
    assert(one_line("-capulus.socket"@));
    reveal_strlit("-agent.service");
    assert(one_line("-agent.service"@));
    reveal_strlit("capulus");
    assert(one_line("capulus"@));
    reveal_strlit("application");
    assert(one_line("application"@));
    reveal_strlit("/var/lib/capulus");
    assert(one_line("/var/lib/capulus"@));
}

spec fn loose_place(i: int) -> int {
    if i == 0 {
        13
    } else if i == 1 {
        14
    } else if i == 2 {
        16
    } else if i == 3 {
        17
    } else if i == 4 {
        18
    } else if i == 5 {
        22
    } else if i == 6 {
        24
    } else {
        -2
    }
}

proof fn lemma_running_places(o: ManagedProductOptions)
    ensures
        forall|i: int|
            0 <= i < runtime_settings(o).len() ==> key_place((#[trigger] runtime_settings(o)[i]).0) == i,
        forall|i: int| 0 <= i < runtime_settings(o).len() ==> key_ok((#[trigger] runtime_settings(o)[i]).0),
{
    lemma_key_places();
    lemma_first_keys();
    lemma_second_keys();
}

proof fn lemma_strict_places()
    ensures
        forall|i: int|
            0 <= i < strict_settings().len() ==> key_place((#[trigger] strict_settings()[i]).0) == 12 + i,
        forall|i: int| 0 <= i < strict_settings().len() ==> key_ok((#[trigger] strict_settings()[i]).0),
{
    lemma_key_places();
    lemma_first_keys();
    lemma_second_keys();
}

proof fn lemma_controller_places()
    ensures
        forall|i: int|
            0 <= i < controller_settings().len() ==> key_place((#[trigger] controller_settings()[i]).0) == loose_place(i),
        forall|i: int| 0 <= i < controller_settings().len() ==> key_ok((#[trigger] controller_settings()[i]).0),
{
    lemma_key_places();
    lemma_first_keys();
    lemma_second_keys();
}

/// The settings of a strictly confined service: each key but the last is of one
/// setting.
proof fn lemma_strict_section(o: ManagedProductOptions, k: int)
    requires
        o.service.hardening is Strict,
        0 <= k < 29,
    ensures
        ({
            let all = runtime_settings(o) + hardening_settings(o.service.hardening);
            &&& all.len() >= 29
            &&& option_values(all, all[k].0) == seq![all[k].1]
        }),
{
    if let ServiceHardening::Strict { read_write_paths, device_allow } = o.service.hardening {
        let all = runtime_settings(o) + hardening_settings(o.service.hardening);
        lemma_running_places(o);
        lemma_strict_places();
        lemma_key_places();
        let devices = device_settings(device_allow@);
        assert forall|i: int| 0 <= i < all.len() implies key_place((#[trigger] all[i]).0) == if i
            < 29 {
            i
        } else {
            29
        } by {
            if i < 12 {
                assert(all[i] == runtime_settings(o)[i]);
            } else if i < 28 {
                assert(all[i] == strict_settings()[i - 12]);
            } else if i > 28 {
                assert(all[i] == devices[i - 29]);
            }
        }
        lemma_sole(all, k);
    }
}

proof fn lemma_controller_section(o: ManagedProductOptions, k: int)
    requires
        o.service.hardening is SystemNetworkController,
        0 <= k < 19,
    ensures
        ({
            let all = runtime_settings(o) + hardening_settings(o.service.hardening);
            &&& all.len() == 19
            &&& option_values(all, all[k].0) == seq![all[k].1]
        }),
{
    let all = runtime_settings(o) + hardening_settings(o.service.hardening);
    lemma_running_places(o);
    lemma_controller_places();
    assert forall|i: int| 0 <= i < all.len() implies key_place((#[trigger] all[i]).0) == if i < 12 {
        i
    } else {
        loose_place(i - 12)
    } by {
        if i < 12 {
            assert(all[i] == runtime_settings(o)[i]);
        } else {
            assert(all[i] == controller_settings()[i - 12]);
        }
    }
    lemma_sole(all, k);
}

/// The values of the devices of a strictly confined service.
proof fn lemma_device_section(o: ManagedProductOptions, devices: Seq<(Seq<char>, Seq<char>)>)
    requires
        o.service.hardening matches ServiceHardening::Strict { device_allow, .. } && devices
            == device_settings(device_allow@),
    ensures
        option_values(
            runtime_settings(o) + hardening_settings(o.service.hardening),
            "DeviceAllow"@,
        ) == devices.map_values(|d: (Seq<char>, Seq<char>)| d.1),
{
    if let ServiceHardening::Strict { read_write_paths, device_allow } = o.service.hardening {
        let all = runtime_settings(o) + hardening_settings(o.service.hardening);
        let key = "DeviceAllow"@;
        let front = all.take(29);
        lemma_running_places(o);
        lemma_strict_places();
        lemma_key_places();
        assert forall|i: int| 0 <= i < front.len() implies (#[trigger] front[i]).0 != key by {
            if i < 12 {
                assert(front[i] == runtime_settings(o)[i]);
            } else if i < 28 {
                assert(front[i] == strict_settings()[i - 12]);
            }
        }
        lemma_no_values(front, key);
        assert(all =~= front + devices);
        lemma_option_values_concat(front, devices, key);
        lemma_option_values_same(devices, key, key);
        assert(option_values(all, key) =~= devices.map_values(|d: (Seq<char>, Seq<char>)| d.1));
    }
}

proof fn lemma_headers()
    ensures
        is_header("[Unit]"@) && one_line("[Unit]"@),
        is_header("[Service]"@) && one_line("[Service]"@),
        is_header("[Socket]"@) && one_line("[Socket]"@),
        is_header("[Install]"@) && one_line("[Install]"@),
        "[Unit]"@ != "[Service]"@,
        "[Unit]"@ != "[Socket]"@,
        "[Unit]"@ != "[Install]"@,
        "[Service]"@ != "[Install]"@,
        "[Socket]"@ != "[Install]"@,
{
    reveal_strlit("[Unit]");
    reveal_strlit("[Service]");
    reveal_strlit("[Socket]");
    reveal_strlit("[Install]");
    assert("[Unit]"@.len() == 6 && "[Service]"@.len() == 9 && "[Socket]"@.len() == 8
        && "[Install]"@.len() == 9);
    assert("[Service]"@[1] == 'S' && "[Install]"@[1] == 'I');
}

proof fn lemma_service_readable(o: ManagedProductOptions)
    requires
        o.accepted(),
    ensures
        readable(dependency_settings(o)),
        readable(runtime_settings(o) + hardening_settings(o.service.hardening)),
        readable(wanted_by("multi-user.target"@)),
{
    lemma_plain_values();
    lemma_other_keys();
    lemma_running_places(o);
    lemma_strict_places();
    lemma_controller_places();
    lemma_second_keys();
    let product = o.product@;
    lemma_one_line_identifier(product);
    lemma_one_line_safe(o.service.description@);
    lemma_one_line_executable(o);
    lemma_one_line_quoted(o.service.executable@);
    lemma_one_line_arguments(o.service.arguments@);
    lemma_one_line_plus(
        quoted(o.service.executable@),
        argument_words(o.service.arguments@),
    );
    let delay = text::decimal(o.service.restart_delay@ / (NANOS_PER_SECOND as nat));
    lemma_one_line_numbers(
        o.service.restart_delay@ / (NANOS_PER_SECOND as nat),
        o.service.state_directory_mode,
    );
    lemma_one_line_plus(delay, "s"@);
    lemma_one_line_plus(product, " capulus"@);
    lemma_one_line_plus(product, "-agent.socket"@);
    lemma_one_line_plus(product, "-capulus.socket"@);
    lemma_one_line_plus(application_socket_name(product), " "@);
    lemma_one_line_plus(application_socket_name(product) + " "@, management_socket_name(product));
    assert(one_line(needed_sockets(o)));
    let running = runtime_settings(o);
    assert(readable(running));
    let hard = hardening_settings(o.service.hardening);
    assert(readable(hard)) by {
        match o.service.hardening {
            ServiceHardening::Strict { read_write_paths, device_allow } => {
                lemma_confined_paths(product, read_write_paths@);
                lemma_confined_paths(product, device_allow@);
                let words = writable_words(read_write_paths@);
                assert forall|i: int| 0 <= i < words.len() implies one_line(#[trigger] words[i]) by {
                    if i < read_write_paths@.len() {
                        assert(words[i] == quoted_list(read_write_paths@)[i]);
                        assert(!unsafe_text(read_write_paths@[i]@));
                        lemma_one_line_safe(read_write_paths@[i]@);
                        lemma_one_line_quoted(read_write_paths@[i]@);
                    } else {
                        lemma_one_line_quoted("/var/lib/capulus"@);
                    }
                }
                lemma_one_line_joined(words);
                let devices = device_settings(device_allow@);
                assert forall|i: int| 0 <= i < hard.len() implies readable_setting(
                    #[trigger] hard[i],
                ) by {
                    if i < 16 {
                        assert(hard[i] == strict_settings()[i]);
                        assert(key_ok(strict_settings()[i].0));
                    } else if i > 16 {
                        assert(hard[i] == devices[i - 17]);
                        assert(!unsafe_text(device_allow@[i - 17]@));
                        lemma_one_line_safe(device_allow@[i - 17]@);
                        lemma_one_line_quoted(device_allow@[i - 17]@);
                        lemma_one_line_plus(quoted(device_allow@[i - 17]@), " rw"@);
                    }
                }
            },
            ServiceHardening::SystemNetworkController => {
                assert forall|i: int| 0 <= i < hard.len() implies readable_setting(
                    #[trigger] hard[i],
                ) by {
                    assert(key_ok(controller_settings()[i].0));
                }
            },
        }
    }
    let all = running + hard;
    assert forall|i: int| 0 <= i < all.len() implies readable_setting(#[trigger] all[i]) by {
        if i < running.len() {
            assert(all[i] == running[i]);
        } else {
            assert(all[i] == hard[i - running.len()]);
        }
    }
}

/// Whether a unit file gives a setting of a section one value.
pub open spec fn says(file: Seq<char>, header: Seq<char>, key: Seq<char>, value: Seq<char>) -> bool {
    read_values(file, header, key) == seq![value]
}

/// Whether a unit file gives a setting of a section one value, whose words are
/// these.
pub open spec fn lists(
    file: Seq<char>,
    header: Seq<char>,
    key: Seq<char>,
    words: Seq<Seq<char>>,
) -> bool {
    &&& read_values(file, header, key).len() == 1
    &&& unit_words(read_values(file, header, key)[0]) == Some(words)
}

/// Reading the command of the service unit by systemd's quoting rules gives the
/// declared executable followed by the declared arguments, all of them in their
/// order, and the service runs as root, is restarted whenever it ends, after the
/// declared delay, and has the declared state directory.
pub proof fn law_the_service_runs_as_declared(product: ManagedProduct, out: String)
    requires
        product@.accepted(),
        call_ensures(ManagedProduct::service_unit_contents, (&product,), out),
    ensures
        ({
            let o = product@;
            let header = "[Service]"@;
            &&& lists(
                out@,
                header,
                "ExecStart"@,
                seq![o.service.executable@] + texts(o.service.arguments@),
            )
            &&& says(out@, header, "Type"@, "exec"@)
            &&& says(out@, header, "User"@, "root"@)
            &&& says(out@, header, "Group"@, "root"@)
            &&& says(out@, header, "UMask"@, "0077"@)
            &&& says(out@, header, "Restart"@, "always"@)
            &&& says(
                out@,
                header,
                "RestartSec"@,
                text::decimal(o.service.restart_delay@ / 1_000_000_000) + "s"@,
            )
            &&& lists(out@, header, "RuntimeDirectory"@, seq![o.product@, "capulus"@])
            &&& says(out@, header, "RuntimeDirectoryMode"@, "0755"@)
            &&& says(out@, header, "RuntimeDirectoryPreserve"@, "yes"@)
            &&& says(out@, header, "StateDirectory"@, o.product@)
            &&& exists|digits: Seq<char>| #[trigger]
                says(out@, header, "StateDirectoryMode"@, digits) && octal_value(digits)
                    == o.service.state_directory_mode
        }),
{
    let o = product@;
    lemma_service_sections(o);
    lemma_service_readable(o);
    lemma_headers();
    let all = runtime_settings(o) + hardening_settings(o.service.hardening);
    lemma_read_three(
        "[Unit]"@,
        dependency_settings(o),
        "[Service]"@,
        all,
        "[Install]"@,
        wanted_by("multi-user.target"@),
        "[Service]"@,
    );
    assert(read_section(out@, "[Service]"@) == all);
    assert forall|k: int| 0 <= k < 12 implies option_values(all, (#[trigger] runtime_settings(
        o,
    )[k]).0) == seq![runtime_settings(o)[k].1] by {
        if o.service.hardening is Strict {
            lemma_strict_section(o, k);
        } else {
            lemma_controller_section(o, k);
        }
        assert(all[k] == runtime_settings(o)[k]);
    }
    assert(read_values(out@, "[Service]"@, "Type"@) == seq![runtime_settings(o)[0].1]);
    assert(read_values(out@, "[Service]"@, "User"@) == seq![runtime_settings(o)[1].1]);
    assert(read_values(out@, "[Service]"@, "Group"@) == seq![runtime_settings(o)[2].1]);
    assert(read_values(out@, "[Service]"@, "UMask"@) == seq![runtime_settings(o)[3].1]);
    assert(read_values(out@, "[Service]"@, "ExecStart"@) == seq![runtime_settings(o)[4].1]);
    assert(read_values(out@, "[Service]"@, "Restart"@) == seq![runtime_settings(o)[5].1]);
    assert(read_values(out@, "[Service]"@, "RestartSec"@) == seq![runtime_settings(o)[6].1]);
    assert(read_values(out@, "[Service]"@, "RuntimeDirectory"@) == seq![runtime_settings(o)[7].1]);
    assert(read_values(out@, "[Service]"@, "RuntimeDirectoryMode"@) == seq![runtime_settings(o)[8].1]);
    assert(read_values(out@, "[Service]"@, "RuntimeDirectoryPreserve"@) == seq![runtime_settings(o)[9].1]);
    assert(read_values(out@, "[Service]"@, "StateDirectory"@) == seq![runtime_settings(o)[10].1]);
    assert(read_values(out@, "[Service]"@, "StateDirectoryMode"@) == seq![runtime_settings(o)[11].1]);
    lemma_read_arguments(o.service.arguments@);
    lemma_read_word(
        o.service.executable@,
        argument_words(o.service.arguments@),
        texts(o.service.arguments@),
    );
    lemma_two_directories(o.product@);
    lemma_mode_value(o.service.state_directory_mode);
    assert(says(
        out@,
        "[Service]"@,
        "StateDirectoryMode"@,
        mode_text(o.service.state_directory_mode),
    ));
}

/// The value of digits in base eight.
pub open spec fn octal_value(s: Seq<char>) -> int
    decreases s.len(),
{
    if s.len() == 0 {
        0
    } else {
        octal_value(s.drop_last()) * 8 + (s.last() as int - 48)
    }
}

proof fn lemma_octal_value(n: nat)
    ensures
        octal_value(text::octal(n)) == n,
    decreases n,
{
    let s = text::octal(n);
    if n < 8 {
        assert(s.drop_last() =~= Seq::<char>::empty());
        reveal_with_fuel(octal_value, 2);
    } else {
        lemma_octal_value(n / 8);
        assert(s.drop_last() =~= text::octal(n / 8));
    }
}

proof fn lemma_leading_zeros(k: nat, s: Seq<char>)
    ensures
        octal_value(Seq::new(k, |i: int| '0') + s) == octal_value(s),
    decreases s.len(), k,
{
    let zeros = Seq::new(k, |i: int| '0');
    let whole = zeros + s;
    if s.len() > 0 {
        assert(whole.drop_last() =~= zeros + s.drop_last());
        lemma_leading_zeros(k, s.drop_last());
    } else if k > 0 {
        let fewer = (k - 1) as nat;
        lemma_leading_zeros(fewer, s);
        assert(whole.drop_last() =~= Seq::new(fewer, |i: int| '0') + s);
    } else {
        assert(whole =~= s);
    }
}

proof fn lemma_mode_value(mode: u32)
    ensures
        octal_value(mode_text(mode)) == mode,
{
    let digits = text::octal(mode as nat);
    lemma_octal_value(mode as nat);
    if digits.len() < 4 {
        lemma_leading_zeros((4 - digits.len()) as nat, digits);
    }
}

proof fn lemma_plain_word(word: Seq<char>, rest: Seq<char>)
    requires
        forall|i: int| 0 <= i < word.len() ==> #[trigger] word[i] != ' ',
        rest.len() == 0 || rest[0] == ' ',
    ensures
        read_plain(word + rest) == (word, rest),
    decreases word.len(),
{
    let whole = word + rest;
    if word.len() == 0 {
        assert(whole =~= rest);
        assert(word =~= Seq::empty());
    } else {
        let tail = word.skip(1);
        assert forall|i: int| 0 <= i < tail.len() implies #[trigger] tail[i] != ' ' by {
            assert(word[i + 1] != ' ');
        }
        assert(word[0] != ' ');
        lemma_plain_word(tail, rest);
        assert(whole.skip(1) =~= tail + rest);
        assert(seq![word[0]] + tail =~= word);
    }
}

/// A plain word is read as it stands.
proof fn lemma_read_plain_word(word: Seq<char>, rest: Seq<char>, words: Seq<Seq<char>>)
    requires
        word.len() > 0,
        word[0] != '"',
        forall|i: int| 0 <= i < word.len() ==> #[trigger] word[i] != ' ',
        rest.len() == 0 || rest[0] == ' ',
        unit_words(rest) == Some(words),
    ensures
        unit_words(word + rest) == Some(seq![word] + words),
{
    assert(word[0] != ' ');
    lemma_plain_word(word, rest);
}

proof fn lemma_two_directories(product: Seq<char>)
    requires
        identifier(product),
    ensures
        unit_words(product + " capulus"@) == Some(seq![product, "capulus"@]),
{
    let none = Seq::<char>::empty();
    reveal_strlit("capulus");
    reveal_strlit(" capulus");
    reveal_strlit(" ");
    assert("capulus"@ + none =~= "capulus"@);
    assert(unit_words(none) == Some(Seq::<Seq<char>>::empty()));
    lemma_read_plain_word("capulus"@, none, seq![]);
    lemma_space_before("capulus"@);
    assert(" "@ + "capulus"@ =~= " capulus"@);
    assert forall|i: int| 0 <= i < product.len() implies #[trigger] product[i] != ' ' by {
        assert(identifier_char(product[i]));
    }
    assert(identifier_char(product[0]));
    assert(seq!["capulus"@] + Seq::<Seq<char>>::empty() =~= seq!["capulus"@]);
    lemma_read_plain_word(product, " capulus"@, seq!["capulus"@]);
    assert(seq![product] + seq!["capulus"@] =~= seq![product, "capulus"@]);
}

/// A strictly confined service is confined in every respect, and may write
/// exactly the declared paths and the state of the management library, and use
/// exactly the declared devices; one that controls the network is confined where
/// that leaves it able to.
pub proof fn law_the_service_is_confined_as_declared(product: ManagedProduct, out: String)
    requires
        product@.accepted(),
        call_ensures(ManagedProduct::service_unit_contents, (&product,), out),
    ensures
        ({
            let header = "[Service]"@;
            match product@.service.hardening {
                ServiceHardening::Strict { read_write_paths, device_allow } => {
                    &&& says(out@, header, "NoNewPrivileges"@, "yes"@)
                    &&& says(out@, header, "PrivateTmp"@, "yes"@)
                    &&& says(out@, header, "ProtectClock"@, "yes"@)
                    &&& says(out@, header, "ProtectControlGroups"@, "yes"@)
                    &&& says(out@, header, "ProtectHome"@, "read-only"@)
                    &&& says(out@, header, "ProtectKernelLogs"@, "yes"@)
                    &&& says(out@, header, "ProtectKernelModules"@, "yes"@)
                    &&& says(out@, header, "ProtectKernelTunables"@, "yes"@)
                    &&& says(out@, header, "ProtectSystem"@, "strict"@)
                    &&& says(out@, header, "DevicePolicy"@, "closed"@)
                    &&& says(out@, header, "RestrictRealtime"@, "yes"@)
                    &&& says(out@, header, "RestrictSUIDSGID"@, "yes"@)
                    &&& says(out@, header, "LockPersonality"@, "yes"@)
                    &&& says(out@, header, "MemoryDenyWriteExecute"@, "yes"@)
                    &&& says(out@, header, "LimitCORE"@, "0"@)
                    &&& says(out@, header, "LimitMEMLOCK"@, "65536"@)
                    &&& (exists|i: int|
                        0 <= i < read_write_paths@.len() && path((#[trigger] read_write_paths@[i])@)
                            == path("/var/lib/capulus"@)) ==> lists(
                        out@,
                        header,
                        "ReadWritePaths"@,
                        texts(read_write_paths@),
                    )
                    &&& (forall|i: int|
                        0 <= i < read_write_paths@.len() ==> path(
                            (#[trigger] read_write_paths@[i])@,
                        ) != path("/var/lib/capulus"@)) ==> lists(
                        out@,
                        header,
                        "ReadWritePaths"@,
                        texts(read_write_paths@).push("/var/lib/capulus"@),
                    )
                    &&& read_values(out@, header, "DeviceAllow"@).len() == device_allow@.len()
                    &&& forall|i: int|
                        0 <= i < device_allow@.len() ==> unit_words(
                            #[trigger] read_values(out@, header, "DeviceAllow"@)[i],
                        ) == Some(seq![device_allow@[i]@, "rw"@])
                },
                ServiceHardening::SystemNetworkController => {
                    &&& says(out@, header, "PrivateTmp"@, "yes"@)
                    &&& says(out@, header, "ProtectClock"@, "yes"@)
                    &&& says(out@, header, "ProtectHome"@, "read-only"@)
                    &&& says(out@, header, "ProtectKernelLogs"@, "yes"@)
                    &&& says(out@, header, "ProtectKernelModules"@, "yes"@)
                    &&& says(out@, header, "RestrictRealtime"@, "yes"@)
                    &&& says(out@, header, "LockPersonality"@, "yes"@)
                    &&& read_section(out@, header).len() == 19
                },
            }
        }),
{
    let o = product@;
    lemma_service_sections(o);
    lemma_service_readable(o);
    lemma_headers();
    let all = runtime_settings(o) + hardening_settings(o.service.hardening);
    lemma_read_three(
        "[Unit]"@,
        dependency_settings(o),
        "[Service]"@,
        all,
        "[Install]"@,
        wanted_by("multi-user.target"@),
        "[Service]"@,
    );
    assert(read_section(out@, "[Service]"@) == all);
    match o.service.hardening {
        ServiceHardening::Strict { read_write_paths, device_allow } => {
            assert forall|k: int| 12 <= k < 29 implies option_values(all, (#[trigger] all[k]).0)
                == seq![all[k].1] by {
                lemma_strict_section(o, k);
            }
            assert(all[12] == ("NoNewPrivileges"@, "yes"@));
            assert(all[13] == ("PrivateTmp"@, "yes"@));
            assert(all[14] == ("ProtectClock"@, "yes"@));
            assert(all[15] == ("ProtectControlGroups"@, "yes"@));
            assert(all[16] == ("ProtectHome"@, "read-only"@));
            assert(all[17] == ("ProtectKernelLogs"@, "yes"@));
            assert(all[18] == ("ProtectKernelModules"@, "yes"@));
            assert(all[19] == ("ProtectKernelTunables"@, "yes"@));
            assert(all[20] == ("ProtectSystem"@, "strict"@));
            assert(all[21] == ("DevicePolicy"@, "closed"@));
            assert(all[22] == ("RestrictRealtime"@, "yes"@));
            assert(all[23] == ("RestrictSUIDSGID"@, "yes"@));
            assert(all[24] == ("LockPersonality"@, "yes"@));
            assert(all[25] == ("MemoryDenyWriteExecute"@, "yes"@));
            assert(all[26] == ("LimitCORE"@, "0"@));
            assert(all[27] == ("LimitMEMLOCK"@, "65536"@));
            let words = writable_words(read_write_paths@);
            let value = text::joined(words, " "@);
            assert(all[28] == ("ReadWritePaths"@, value));
            let none = Seq::<char>::empty();
            let declared = texts(read_write_paths@);
            let given = if lists_path(read_write_paths@, "/var/lib/capulus"@) {
                declared
            } else {
                declared.push("/var/lib/capulus"@)
            };
            assert(unit_words(none) == Some(Seq::<Seq<char>>::empty()));
            lemma_read_list(given, none, seq![]);
            assert(given.map_values(|s: Seq<char>| quoted(s)) =~= words);
            assert(value + none =~= value);
            assert(given + Seq::<Seq<char>>::empty() =~= given);
            let devices = device_settings(device_allow@);
            lemma_device_section(o, devices);
            let found = read_values(out@, "[Service]"@, "DeviceAllow"@);
            assert forall|i: int| 0 <= i < device_allow@.len() implies unit_words(
                #[trigger] found[i],
            ) == Some(seq![device_allow@[i]@, "rw"@]) by {
                assert(found[i] == devices[i].1);
                lemma_device_words(device_allow@[i]@);
            }
        },
        ServiceHardening::SystemNetworkController => {
            assert forall|k: int| 12 <= k < 19 implies option_values(all, (#[trigger] all[k]).0)
                == seq![all[k].1] by {
                lemma_controller_section(o, k);
            }
            assert(all[12] == ("PrivateTmp"@, "yes"@));
            assert(all[13] == ("ProtectClock"@, "yes"@));
            assert(all[14] == ("ProtectHome"@, "read-only"@));
            assert(all[15] == ("ProtectKernelLogs"@, "yes"@));
            assert(all[16] == ("ProtectKernelModules"@, "yes"@));
            assert(all[17] == ("RestrictRealtime"@, "yes"@));
            assert(all[18] == ("LockPersonality"@, "yes"@));
        },
    }
}

proof fn lemma_device_words(device: Seq<char>)
    ensures
        unit_words(quoted(device) + " rw"@) == Some(seq![device, "rw"@]),
{
    let none = Seq::<char>::empty();
    reveal_strlit("rw");
    reveal_strlit(" rw");
    reveal_strlit(" ");
    assert("rw"@ + none =~= "rw"@);
    assert(unit_words(none) == Some(Seq::<Seq<char>>::empty()));
    lemma_read_plain_word("rw"@, none, seq![]);
    assert(seq!["rw"@] + Seq::<Seq<char>>::empty() =~= seq!["rw"@]);
    lemma_space_before("rw"@);
    assert(" "@ + "rw"@ =~= " rw"@);
    lemma_read_word(device, " rw"@, seq!["rw"@]);
    assert(seq![device] + seq!["rw"@] =~= seq![device, "rw"@]);
}

proof fn lemma_two_names(a: Seq<char>, b: Seq<char>)
    requires
        a.len() > 0,
        b.len() > 0,
        a[0] != '"',
        b[0] != '"',
        forall|i: int| 0 <= i < a.len() ==> #[trigger] a[i] != ' ',
        forall|i: int| 0 <= i < b.len() ==> #[trigger] b[i] != ' ',
    ensures
        unit_words(a + " "@ + b) == Some(seq![a, b]),
        unit_words(b) == Some(seq![b]),
{
    let none = Seq::<char>::empty();
    reveal_strlit(" ");
    assert(b + none =~= b);
    assert(unit_words(none) == Some(Seq::<Seq<char>>::empty()));
    lemma_read_plain_word(b, none, seq![]);
    assert(seq![b] + Seq::<Seq<char>>::empty() =~= seq![b]);
    lemma_space_before(b);
    lemma_read_plain_word(a, " "@ + b, seq![b]);
    assert(a + (" "@ + b) =~= a + " "@ + b);
    assert(seq![a] + seq![b] =~= seq![a, b]);
}

proof fn lemma_socket_names(product: Seq<char>)
    requires
        identifier(product),
    ensures
        ({
            let a = application_socket_name(product);
            let m = management_socket_name(product);
            &&& unit_words(a + " "@ + m) == Some(seq![a, m])
            &&& unit_words(m) == Some(seq![m])
        }),
{
    reveal_strlit("-agent.socket");
    reveal_strlit("-capulus.socket");
    let a = application_socket_name(product);
    let m = management_socket_name(product);
    let n = product.len() as int;
    assert(identifier_char(product[0]));
    assert forall|i: int| 0 <= i < a.len() implies #[trigger] a[i] != ' ' by {
        if i < n {
            assert(identifier_char(product[i]));
        } else {
            assert(a[i] == "-agent.socket"@[i - n]);
        }
    }
    assert forall|i: int| 0 <= i < m.len() implies #[trigger] m[i] != ' ' by {
        if i < n {
            assert(identifier_char(product[i]));
        } else {
            assert(m[i] == "-capulus.socket"@[i - n]);
        }
    }
    lemma_two_names(a, m);
}

/// The service unit has the declared description, is never held back from
/// starting again, needs and follows the product's sockets, those of them that
/// systemd listens on, needs the network only where that is declared, and starts
/// with the system.
pub proof fn law_the_service_depends_on_its_sockets(product: ManagedProduct, out: String)
    requires
        product@.accepted(),
        call_ensures(ManagedProduct::service_unit_contents, (&product,), out),
    ensures
        ({
            let o = product@;
            let header = "[Unit]"@;
            let sockets = if o.application_socket is SystemdActivated {
                seq![application_socket_name(o.product@), management_socket_name(o.product@)]
            } else {
                seq![management_socket_name(o.product@)]
            };
            let after = read_values(out@, header, "After"@);
            &&& says(out@, header, "Description"@, o.service.description@)
            &&& lists(out@, header, "Requires"@, sockets)
            &&& after.len() > 0 && unit_words(after[0]) == Some(sockets)
            &&& says(out@, header, "StartLimitIntervalSec"@, "0"@)
            &&& says(out@, "[Install]"@, "WantedBy"@, "multi-user.target"@)
            &&& if o.service.network_required {
                &&& after.len() == 2 && after[1] == "network-online.target"@
                &&& says(out@, header, "Wants"@, "network-online.target"@)
            } else {
                after.len() == 1 && read_values(out@, header, "Wants"@).len() == 0
            }
        }),
{
    let o = product@;
    lemma_service_sections(o);
    lemma_service_readable(o);
    lemma_headers();
    let deps = dependency_settings(o);
    let all = runtime_settings(o) + hardening_settings(o.service.hardening);
    let wanted = wanted_by("multi-user.target"@);
    lemma_read_three("[Unit]"@, deps, "[Service]"@, all, "[Install]"@, wanted, "[Unit]"@);
    lemma_read_three("[Unit]"@, deps, "[Service]"@, all, "[Install]"@, wanted, "[Install]"@);
    lemma_sole(wanted, 0);
    reveal_strlit("Description");
    reveal_strlit("Requires");
    reveal_strlit("After");
    reveal_strlit("Wants");
    reveal_strlit("StartLimitIntervalSec");
    assert("Description"@.len() == 11 && "Requires"@.len() == 8 && "After"@.len() == 5
        && "Wants"@.len() == 5 && "StartLimitIntervalSec"@.len() == 21);
    assert("After"@[0] == 'A' && "Wants"@[0] == 'W');
    lemma_socket_names(o.product@);
    let x = needed_sockets(o);
    assert(deps[0] == ("Description"@, o.service.description@));
    assert(deps[1] == ("Requires"@, x));
    assert(deps[2] == ("After"@, x));
    lemma_sole(deps, 0);
    lemma_sole(deps, 1);
    let n = deps.len() - 1;
    assert(deps[n] == ("StartLimitIntervalSec"@, "0"@));
    if o.service.network_required {
        assert(deps[3] == ("After"@, "network-online.target"@));
        assert(deps[4] == ("Wants"@, "network-online.target"@));
        assert(n == 5);
        lemma_sole(deps, 4);
        lemma_sole(deps, 5);
        let a = deps.take(3);
        let b = deps.skip(3);
        assert(deps =~= a + b);
        lemma_option_values_concat(a, b, "After"@);
        lemma_sole(a, 2);
        lemma_sole(b, 0);
        assert(option_values(deps, "After"@) =~= seq![x, "network-online.target"@]);
    } else {
        assert(n == 3);
        lemma_sole(deps, 2);
        lemma_sole(deps, 3);
        lemma_no_values(deps, "Wants"@);
    }
}

/// The unit of a socket listens at the declared path, under the descriptor's
/// name, for the product's service, which takes the connections itself; the
/// socket has the declared mode and group, and goes when the unit stops.
pub proof fn law_a_socket_listens_as_declared(
    product: ManagedProduct,
    descriptor: &str,
    socket: SocketOptions,
    out: String,
)
    requires
        product@.accepted(),
        descriptor@ == "application"@ || descriptor@ == "capulus"@,
        socket_ok(product@.product@, descriptor@, socket),
        call_ensures(ManagedProduct::socket_unit_contents, (&product, descriptor, &socket), out),
    ensures
        ({
            let header = "[Socket]"@;
            &&& says(out@, header, "ListenStream"@, socket.path@)
            &&& says(out@, header, "FileDescriptorName"@, descriptor@)
            &&& says(out@, header, "Service"@, service_name(product@.product@))
            &&& says(out@, header, "Accept"@, "no"@)
            &&& exists|digits: Seq<char>| #[trigger]
                says(out@, header, "SocketMode"@, digits) && octal_value(digits) == socket.mode
            &&& match socket.group {
                Some(group) => says(out@, header, "SocketGroup"@, group@),
                None => read_values(out@, header, "SocketGroup"@).len() == 0,
            }
            &&& says(out@, header, "DirectoryMode"@, "0755"@)
            &&& says(out@, header, "RemoveOnStop"@, "yes"@)
            &&& says(
                out@,
                "[Unit]"@,
                "Description"@,
                product@.product@ + " "@ + descriptor@ + " socket"@,
            )
            &&& says(out@, "[Install]"@, "WantedBy"@, "sockets.target"@)
        }),
{
    let name = product@.product@;
    let d = descriptor@;
    lemma_socket_sections(name, d, socket);
    lemma_headers();
    lemma_plain_values();
    lemma_other_keys();
    lemma_one_line_identifier(name);
    lemma_one_line_socket_path(name, d);
    lemma_one_line_path(socket.path@, socket_path(name, d));
    lemma_one_line_numbers(0, socket.mode);
    lemma_one_line_plus(name, " "@);
    lemma_one_line_plus(name + " "@, d);
    lemma_one_line_plus(name + " "@ + d, " socket"@);
    lemma_one_line_plus(name, "-agent.service"@);
    if let Some(g) = socket.group {
        lemma_one_line_identifier(g@);
    }
    let described = socket_description(name, d);
    let all = socket_settings(name, d, socket);
    let wanted = wanted_by("sockets.target"@);
    assert(readable(described));
    assert(readable(all));
    assert(readable(wanted));
    lemma_read_three("[Unit]"@, described, "[Socket]"@, all, "[Install]"@, wanted, "[Unit]"@);
    lemma_read_three("[Unit]"@, described, "[Socket]"@, all, "[Install]"@, wanted, "[Socket]"@);
    lemma_read_three("[Unit]"@, described, "[Socket]"@, all, "[Install]"@, wanted, "[Install]"@);
    lemma_sole(wanted, 0);
    lemma_sole(described, 0);
    reveal_strlit("ListenStream");
    reveal_strlit("FileDescriptorName");
    reveal_strlit("Service");
    reveal_strlit("Accept");
    reveal_strlit("SocketMode");
    reveal_strlit("SocketGroup");
    reveal_strlit("DirectoryMode");
    reveal_strlit("RemoveOnStop");
    assert("ListenStream"@.len() == 12 && "FileDescriptorName"@.len() == 18 && "Service"@.len() == 7
        && "Accept"@.len() == 6 && "SocketMode"@.len() == 10 && "SocketGroup"@.len() == 11
        && "DirectoryMode"@.len() == 13 && "RemoveOnStop"@.len() == 12);
    assert("ListenStream"@[0] == 'L' && "RemoveOnStop"@[0] == 'R');
    assert(all[0] == ("ListenStream"@, socket.path@));
    assert(all[1] == ("FileDescriptorName"@, d));
    assert(all[2] == ("Service"@, service_name(name)));
    assert(all[3] == ("Accept"@, "no"@));
    assert(all[4] == ("SocketMode"@, mode_text(socket.mode)));
    let n = all.len() as int;
    assert(all[n - 2] == ("DirectoryMode"@, "0755"@));
    assert(all[n - 1] == ("RemoveOnStop"@, "yes"@));
    if let Some(g) = socket.group {
        assert(n == 8);
        assert(all[5] == ("SocketGroup"@, g@));
        lemma_sole(all, 5);
    } else {
        assert(n == 7);
        lemma_no_values(all, "SocketGroup"@);
    }
    lemma_sole(all, 0);
    lemma_sole(all, 1);
    lemma_sole(all, 2);
    lemma_sole(all, 3);
    lemma_sole(all, 4);
    lemma_sole(all, n - 2);
    lemma_sole(all, n - 1);
    lemma_mode_value(socket.mode);
    assert(says(out@, "[Socket]"@, "SocketMode"@, mode_text(socket.mode)));
}

} // verus!
