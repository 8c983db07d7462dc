//! What the unit files of a product hold.

use vstd::prelude::*;

use super::product::{
    application_socket_name, argument_words, binary_ok, destinations, device_lines, escaped,
    escaped_char, first_bad_path, group_text, hardening_path_ok, hardening_text, identifier,
    identifier_char, management_socket_name, mode_text, network_text, path_list, quoted,
    quoted_list, service_name, service_unit, socket_dependencies, socket_file, socket_ok,
    socket_path, socket_unit, unsafe_text, unsafe_unit_char, writable_words, ManagedProductOptions,
    ServiceHardening, SocketOptions,
};
use crate::duration::NANOS_PER_SECOND;
use crate::search::lemma_none_failing;
use crate::text;
use crate::unix_path;
use crate::unix_path::path;

verus! {

/// A character that the unit files of a product may hold: a line feed, or one
/// that is no control character and no percent sign.
pub open spec fn unit_char(c: char) -> bool {
    c == '\n' || !unsafe_unit_char(c)
}

/// Whether a text holds only characters that unit files of a product may hold.
pub open spec fn unit_safe(s: Seq<char>) -> bool {
    forall|i: int| 0 <= i < s.len() ==> unit_char(#[trigger] s[i])
}

proof fn lemma_plus(a: Seq<char>, b: Seq<char>)
    requires
        unit_safe(a),
        unit_safe(b),
    ensures
        unit_safe(a + b),
{
    assert forall|i: int| 0 <= i < (a + b).len() implies unit_char(#[trigger] (a + b)[i]) by {
        if i < a.len() {
            assert(unit_char(a[i]));
        } else {
            assert(unit_char(b[i - a.len()]));
        }
    }
}

proof fn lemma_short_words()
    ensures
        unit_safe("\n"@),
        unit_safe("Requires="@),
        unit_safe(" "@),
        unit_safe("\nAfter="@),
        unit_safe("="@),
        unit_safe("DeviceAllow="@),
        unit_safe(" rw\n"@),
        unit_safe("ReadWritePaths"@),
        unit_safe("/var/lib/capulus"@),
        unit_safe(""@),
{
    reveal_strlit("\n");
    reveal_strlit("Requires=");
    reveal_strlit(" ");
    reveal_strlit("\nAfter=");
    reveal_strlit("=");
    reveal_strlit("DeviceAllow=");
    reveal_strlit(" rw\n");
    reveal_strlit("ReadWritePaths");
    reveal_strlit("/var/lib/capulus");
    reveal_strlit("");
}

proof fn lemma_service_words()
    ensures
        unit_safe("[Unit]\nDescription="@),
        unit_safe("After=network-online.target\nWants=network-online.target\n"@),
        unit_safe("StartLimitIntervalSec=0\n\
           \n\
           [Service]\n\
           Type=exec\n\
           User=root\n\
           Group=root\n\
           UMask=0077\n\
           ExecStart="@),
        unit_safe("\nRestart=always\nRestartSec="@),
        unit_safe("s\nRuntimeDirectory="@),
        unit_safe(" capulus\n\
           RuntimeDirectoryMode=0755\n\
           RuntimeDirectoryPreserve=yes\n\
           StateDirectory="@),
        unit_safe("\nStateDirectoryMode="@),
        unit_safe("\n[Install]\nWantedBy=multi-user.target\n"@),
{
    reveal_strlit("[Unit]\nDescription=");
    reveal_strlit("After=network-online.target\nWants=network-online.target\n");
    reveal_strlit("StartLimitIntervalSec=0\n\
           \n\
           [Service]\n\
           Type=exec\n\
           User=root\n\
           Group=root\n\
           UMask=0077\n\
           ExecStart=");
    reveal_strlit("\nRestart=always\nRestartSec=");
    reveal_strlit("s\nRuntimeDirectory=");
    reveal_strlit(" capulus\n\
           RuntimeDirectoryMode=0755\n\
           RuntimeDirectoryPreserve=yes\n\
           StateDirectory=");
    reveal_strlit("\nStateDirectoryMode=");
    reveal_strlit("\n[Install]\nWantedBy=multi-user.target\n");
}

proof fn lemma_socket_words()
    ensures
        unit_safe(" socket\n\n[Socket]\nListenStream="@),
        unit_safe("\nFileDescriptorName="@),
        unit_safe("\nService="@),
        unit_safe("\nAccept=no\nSocketMode="@),
        unit_safe("DirectoryMode=0755\n\
           RemoveOnStop=yes\n\
           \n\
           [Install]\n\
           WantedBy=sockets.target\n"@),
        unit_safe("SocketGroup="@),
        unit_safe("capulus"@),
        unit_safe("application"@),
{
    reveal_strlit(" socket\n\n[Socket]\nListenStream=");
    reveal_strlit("\nFileDescriptorName=");
    reveal_strlit("\nService=");
    reveal_strlit("\nAccept=no\nSocketMode=");
    reveal_strlit("DirectoryMode=0755\n\
           RemoveOnStop=yes\n\
           \n\
           [Install]\n\
           WantedBy=sockets.target\n");
    reveal_strlit("SocketGroup=");
    reveal_strlit("capulus");
    reveal_strlit("application");
}

proof fn lemma_unit_endings()
    ensures
        unit_safe("-agent.service"@),
        unit_safe("-agent.socket"@),
        unit_safe("-capulus.socket"@),
{
    reveal_strlit("-agent.service");
    reveal_strlit("-agent.socket");
    reveal_strlit("-capulus.socket");
}

proof fn lemma_place_words()
    ensures
        unit_safe("/run"@),
        unit_safe("/"@),
        unit_safe("agent.sock"@),
        unit_safe("capulus.sock"@),
        unit_safe("/usr/local/bin"@),
{
    reveal_strlit("/run");
    reveal_strlit("/");
    reveal_strlit("agent.sock");
    reveal_strlit("capulus.sock");
    reveal_strlit("/usr/local/bin");
}

proof fn lemma_strict_words()
    ensures
        unit_safe("NoNewPrivileges=yes\n\
             PrivateTmp=yes\n\
             ProtectClock=yes\n\
             ProtectControlGroups=yes\n\
             ProtectHome=read-only\n\
             ProtectKernelLogs=yes\n\
             ProtectKernelModules=yes\n\
             ProtectKernelTunables=yes\n\
             ProtectSystem=strict\n\
             DevicePolicy=closed\n\
             RestrictRealtime=yes\n\
             RestrictSUIDSGID=yes\n\
             LockPersonality=yes\n\
             MemoryDenyWriteExecute=yes\n\
             LimitCORE=0\n\
             LimitMEMLOCK=65536\n"@),
{
    reveal_strlit("NoNewPrivileges=yes\n\
             PrivateTmp=yes\n\
             ProtectClock=yes\n\
             ProtectControlGroups=yes\n\
             ProtectHome=read-only\n\
             ProtectKernelLogs=yes\n\
             ProtectKernelModules=yes\n\
             ProtectKernelTunables=yes\n\
             ProtectSystem=strict\n\
             DevicePolicy=closed\n\
             RestrictRealtime=yes\n\
             RestrictSUIDSGID=yes\n\
             LockPersonality=yes\n\
             MemoryDenyWriteExecute=yes\n\
             LimitCORE=0\n\
             LimitMEMLOCK=65536\n");
}

proof fn lemma_loose_words()
    ensures
        unit_safe("PrivateTmp=yes\n\
             ProtectClock=yes\n\
             ProtectHome=read-only\n\
             ProtectKernelLogs=yes\n\
             ProtectKernelModules=yes\n\
             RestrictRealtime=yes\n\
             LockPersonality=yes\n"@),
{
    reveal_strlit("PrivateTmp=yes\n\
             ProtectClock=yes\n\
             ProtectHome=read-only\n\
             ProtectKernelLogs=yes\n\
             ProtectKernelModules=yes\n\
             RestrictRealtime=yes\n\
             LockPersonality=yes\n");
}

proof fn lemma_plain_text(s: Seq<char>)
    requires
        !unsafe_text(s),
    ensures
        unit_safe(s),
{
}

proof fn lemma_identifier(s: Seq<char>)
    requires
        identifier(s),
    ensures
        unit_safe(s),
{
    assert forall|i: int| 0 <= i < s.len() implies unit_char(#[trigger] s[i]) by {
        assert(identifier_char(s[i]));
    }
}

proof fn lemma_escaped(s: Seq<char>)
    requires
        unit_safe(s),
    ensures
        unit_safe(escaped(s)),
    decreases s.len(),
{
    if s.len() > 0 {
        let front = s.drop_last();
        assert forall|i: int| 0 <= i < front.len() implies unit_char(#[trigger] front[i]) by {
            assert(unit_char(s[i]));
        }
        lemma_escaped(front);
        assert(unit_char(s[s.len() - 1]));
        lemma_plus(escaped(front), escaped_char(s.last()));
    }
}

proof fn lemma_quoted(s: Seq<char>)
    requires
        unit_safe(s),
    ensures
        unit_safe(quoted(s)),
{
    lemma_escaped(s);
    lemma_plus(seq!['"'], escaped(s));
    lemma_plus(seq!['"'] + escaped(s), seq!['"']);
}

proof fn lemma_joined(list: Seq<Seq<char>>, sep: Seq<char>)
    requires
        unit_safe(sep),
        forall|i: int| 0 <= i < list.len() ==> unit_safe(#[trigger] list[i]),
    ensures
        unit_safe(text::joined(list, sep)),
    decreases list.len(),
{
    if list.len() == 1 {
        assert(unit_safe(list[0]));
    } else if list.len() > 1 {
        let front = list.drop_last();
        assert forall|i: int| 0 <= i < front.len() implies unit_safe(#[trigger] front[i]) by {
            assert(unit_safe(list[i]));
        }
        lemma_joined(front, sep);
        assert(unit_safe(list[list.len() - 1]));
        lemma_plus(text::joined(front, sep), sep);
        lemma_plus(text::joined(front, sep) + sep, list.last());
    }
}

proof fn lemma_digits(n: nat, mode: u32)
    ensures
        unit_safe(text::decimal(n)),
        unit_safe(mode_text(mode)),
{
    text::lemma_decimal_value(n);
    assert forall|i: int| 0 <= i < text::decimal(n).len() implies unit_char(
        #[trigger] text::decimal(n)[i],
    ) by {
        assert(text::is_digit(text::decimal(n)[i]));
    }
    lemma_octal(mode as nat);
    let digits = text::octal(mode as nat);
    if digits.len() < 4 {
        lemma_plus(Seq::new((4 - digits.len()) as nat, |i: int| '0'), digits);
    }
}

proof fn lemma_octal(n: nat)
    ensures
        unit_safe(text::octal(n)),
    decreases n,
{
    if n >= 8 {
        lemma_octal(n / 8);
        assert forall|i: int| 0 <= i < text::octal(n).len() implies unit_char(
            #[trigger] text::octal(n)[i],
        ) by {
            if i < text::octal(n / 8).len() {
                assert(unit_char(text::octal(n / 8)[i]));
            }
        }
    }
}

/// A text that names the same path as a safe one is safe.
proof fn lemma_same_path(p: Seq<char>, q: Seq<char>)
    requires
        path(p) == path(q),
        unit_safe(q),
    ensures
        unit_safe(p),
{
    assert forall|i: int| 0 <= i < p.len() implies unit_char(#[trigger] p[i]) by {
        if p[i] != '/' && p[i] != '.' {
            unix_path::lemma_same_path_chars(p, q, i);
            let j = choose|j: int| 0 <= j < q.len() && q[j] == p[i];
            assert(unit_char(q[j]));
        }
    }
}

proof fn lemma_names(product: Seq<char>)
    requires
        identifier(product),
    ensures
        unit_safe(product),
        unit_safe(service_name(product)),
        unit_safe(application_socket_name(product)),
        unit_safe(management_socket_name(product)),
{
    lemma_identifier(product);
    lemma_unit_endings();
    lemma_plus(product, "-agent.service"@);
    lemma_plus(product, "-agent.socket"@);
    lemma_plus(product, "-capulus.socket"@);
}

proof fn lemma_dependencies(o: ManagedProductOptions)
    requires
        identifier(o.product@),
    ensures
        unit_safe(socket_dependencies(o)),
{
    lemma_names(o.product@);
    lemma_short_words();
    let m = management_socket_name(o.product@);
    let a = application_socket_name(o.product@);
    lemma_plus("Requires="@, a);
    lemma_plus("Requires="@ + a, " "@);
    lemma_plus("Requires="@ + a + " "@, m);
    lemma_plus("Requires="@ + a + " "@ + m, "\nAfter="@);
    lemma_plus("Requires="@ + a + " "@ + m + "\nAfter="@, a);
    lemma_plus("Requires="@ + a + " "@ + m + "\nAfter="@ + a, " "@);
    lemma_plus("Requires="@ + a + " "@ + m + "\nAfter="@ + a + " "@, m);
    lemma_plus("Requires="@ + a + " "@ + m + "\nAfter="@ + a + " "@ + m, "\n"@);
    lemma_plus("Requires="@, m);
    lemma_plus("Requires="@ + m, "\nAfter="@);
    lemma_plus("Requires="@ + m + "\nAfter="@, m);
    lemma_plus("Requires="@ + m + "\nAfter="@ + m, "\n"@);
}

proof fn lemma_arguments(arguments: Seq<String>)
    requires
        forall|i: int| 0 <= i < arguments.len() ==> !unsafe_text((#[trigger] arguments[i])@),
    ensures
        unit_safe(argument_words(arguments)),
    decreases arguments.len(),
{
    if arguments.len() > 0 {
        let front = arguments.drop_last();
        assert forall|i: int| 0 <= i < front.len() implies !unsafe_text((#[trigger] front[i])@) by {
            assert(!unsafe_text(arguments[i]@));
        }
        lemma_arguments(front);
        lemma_short_words();
        assert(!unsafe_text(arguments[arguments.len() - 1]@));
        lemma_plain_text(arguments.last()@);
        lemma_quoted(arguments.last()@);
        lemma_plus(argument_words(front), " "@);
        lemma_plus(argument_words(front) + " "@, quoted(arguments.last()@));
    }
}

proof fn lemma_devices(paths: Seq<String>)
    requires
        forall|i: int| 0 <= i < paths.len() ==> !unsafe_text((#[trigger] paths[i])@),
    ensures
        unit_safe(device_lines(paths)),
    decreases paths.len(),
{
    if paths.len() > 0 {
        let front = paths.drop_last();
        assert forall|i: int| 0 <= i < front.len() implies !unsafe_text((#[trigger] front[i])@) by {
            assert(!unsafe_text(paths[i]@));
        }
        lemma_devices(front);
        lemma_short_words();
        assert(!unsafe_text(paths[paths.len() - 1]@));
        lemma_plain_text(paths.last()@);
        lemma_quoted(paths.last()@);
        let a = device_lines(front);
        let q = quoted(paths.last()@);
        lemma_plus(a, "DeviceAllow="@);
        lemma_plus(a + "DeviceAllow="@, q);
        lemma_plus(a + "DeviceAllow="@ + q, " rw\n"@);
    }
}

proof fn lemma_writable(paths: Seq<String>)
    requires
        forall|i: int| 0 <= i < paths.len() ==> !unsafe_text((#[trigger] paths[i])@),
    ensures
        unit_safe(path_list("ReadWritePaths"@, writable_words(paths))),
{
    lemma_short_words();
    lemma_quoted("/var/lib/capulus"@);
    let words = writable_words(paths);
    assert forall|i: int| 0 <= i < words.len() implies unit_safe(#[trigger] words[i]) by {
        if i < paths.len() {
            assert(words[i] == quoted_list(paths)[i]);
            assert(!unsafe_text(paths[i]@));
            lemma_plain_text(paths[i]@);
            lemma_quoted(paths[i]@);
        }
    }
    lemma_joined(words, " "@);
    let list = text::joined(words, " "@);
    lemma_plus("ReadWritePaths"@, "="@);
    lemma_plus("ReadWritePaths"@ + "="@, list);
    lemma_plus("ReadWritePaths"@ + "="@ + list, "\n"@);
}

pub proof fn lemma_confined_paths(product: Seq<char>, paths: Seq<String>)
    requires
        first_bad_path(product, paths) == paths.len(),
    ensures
        forall|i: int| 0 <= i < paths.len() ==> !unsafe_text((#[trigger] paths[i])@),
{
    let p = |i: int| hardening_path_ok(product, paths[i]@);
    lemma_none_failing(p, paths.len(), 0);
    assert forall|i: int| 0 <= i < paths.len() implies !unsafe_text((#[trigger] paths[i])@) by {
        assert(p(i));
    }
}

proof fn lemma_hardening(o: ManagedProductOptions)
    requires
        o.accepted(),
    ensures
        unit_safe(hardening_text(o.service.hardening)),
{
    match o.service.hardening {
        ServiceHardening::Strict { read_write_paths, device_allow } => {
            lemma_confined_paths(o.product@, read_write_paths@);
            lemma_confined_paths(o.product@, device_allow@);
            lemma_strict_words();
            lemma_writable(read_write_paths@);
            lemma_devices(device_allow@);
            let words = path_list("ReadWritePaths"@, writable_words(read_write_paths@));
            let settings = "NoNewPrivileges=yes\n\
             PrivateTmp=yes\n\
             ProtectClock=yes\n\
             ProtectControlGroups=yes\n\
             ProtectHome=read-only\n\
             ProtectKernelLogs=yes\n\
             ProtectKernelModules=yes\n\
             ProtectKernelTunables=yes\n\
             ProtectSystem=strict\n\
             DevicePolicy=closed\n\
             RestrictRealtime=yes\n\
             RestrictSUIDSGID=yes\n\
             LockPersonality=yes\n\
             MemoryDenyWriteExecute=yes\n\
             LimitCORE=0\n\
             LimitMEMLOCK=65536\n"@;
            lemma_plus(settings, words);
            lemma_plus(settings + words, device_lines(device_allow@));
        },
        ServiceHardening::SystemNetworkController => {
            lemma_loose_words();
        },
    }
}

proof fn lemma_executable(o: ManagedProductOptions)
    requires
        o.accepted(),
    ensures
        unit_safe(o.service.executable@),
{
    let binaries = o.system_binaries@;
    let places = destinations(binaries);
    let executable = path(o.service.executable@);
    let k = choose|k: int| 0 <= k < places.len() && places[k] == executable;
    assert(path(binaries[k].destination@) == executable);
    let ok = |i: int| binary_ok(binaries, i);
    lemma_none_failing(ok, binaries.len(), 0);
    assert(ok(k));
    let name = binaries[k].cargo_name@;
    lemma_identifier(name);
    lemma_place_words();
    let whole = "/usr/local/bin"@.push('/') + name;
    assert(!name.contains('/')) by {
        if name.contains('/') {
            let j = choose|j: int| 0 <= j < name.len() && name[j] == '/';
            assert(identifier_char(name[j]));
        }
    }
    assert(name[0] != '.') by {
        assert(identifier_char(name[0]));
    }
    reveal_strlit("/usr/local/bin");
    unix_path::lemma_join_name("/usr/local/bin"@, name);
    assert(path(whole).parts =~= path(o.service.executable@).parts);
    lemma_plus(seq!['/'], name);
    lemma_plus("/usr/local/bin"@, seq!['/'] + name);
    assert(whole =~= "/usr/local/bin"@ + (seq!['/'] + name));
    lemma_same_path(o.service.executable@, whole);
}

proof fn lemma_service_unit(o: ManagedProductOptions)
    requires
        o.accepted(),
    ensures
        unit_safe(service_unit(o)),
{
    lemma_short_words();
    lemma_service_words();
    lemma_names(o.product@);
    lemma_dependencies(o);
    lemma_executable(o);
    lemma_quoted(o.service.executable@);
    lemma_arguments(o.service.arguments@);
    lemma_plain_text(o.service.description@);
    lemma_hardening(o);
    lemma_digits(
        o.service.restart_delay@ / (NANOS_PER_SECOND as nat),
        o.service.state_directory_mode,
    );
    let a = "[Unit]\nDescription="@;
    let b = a + o.service.description@;
    lemma_plus(a, o.service.description@);
    let c = b + "\n"@;
    lemma_plus(b, "\n"@);
    let d = c + socket_dependencies(o);
    lemma_plus(c, socket_dependencies(o));
    let e = d + network_text(o.service.network_required);
    lemma_plus(d, network_text(o.service.network_required));
    let f = e + "StartLimitIntervalSec=0\n\
           \n\
           [Service]\n\
           Type=exec\n\
           User=root\n\
           Group=root\n\
           UMask=0077\n\
           ExecStart="@;
    lemma_plus(e, "StartLimitIntervalSec=0\n\
           \n\
           [Service]\n\
           Type=exec\n\
           User=root\n\
           Group=root\n\
           UMask=0077\n\
           ExecStart="@);
    let g = f + quoted(o.service.executable@);
    lemma_plus(f, quoted(o.service.executable@));
    let h = g + argument_words(o.service.arguments@);
    lemma_plus(g, argument_words(o.service.arguments@));
    let i = h + "\nRestart=always\nRestartSec="@;
    lemma_plus(h, "\nRestart=always\nRestartSec="@);
    let delay = text::decimal(o.service.restart_delay@ / (NANOS_PER_SECOND as nat));
    let j = i + delay;
    lemma_plus(i, delay);
    let k = j + "s\nRuntimeDirectory="@;
    lemma_plus(j, "s\nRuntimeDirectory="@);
    let l = k + o.product@;
    lemma_plus(k, o.product@);
    let m = l + " capulus\n\
           RuntimeDirectoryMode=0755\n\
           RuntimeDirectoryPreserve=yes\n\
           StateDirectory="@;
    lemma_plus(l, " capulus\n\
           RuntimeDirectoryMode=0755\n\
           RuntimeDirectoryPreserve=yes\n\
           StateDirectory="@);
    let n = m + o.product@;
    lemma_plus(m, o.product@);
    let p = n + "\nStateDirectoryMode="@;
    lemma_plus(n, "\nStateDirectoryMode="@);
    let q = p + mode_text(o.service.state_directory_mode);
    lemma_plus(p, mode_text(o.service.state_directory_mode));
    let r = q + "\n"@;
    lemma_plus(q, "\n"@);
    let s = r + hardening_text(o.service.hardening);
    lemma_plus(r, hardening_text(o.service.hardening));
    lemma_plus(s, "\n[Install]\nWantedBy=multi-user.target\n"@);
}

proof fn lemma_socket_unit(product: Seq<char>, descriptor: Seq<char>, socket: SocketOptions)
    requires
        identifier(product),
        descriptor == "application"@ || descriptor == "capulus"@,
        socket_ok(product, descriptor, socket),
    ensures
        unit_safe(socket_unit(product, descriptor, socket)),
{
    lemma_short_words();
    lemma_service_words();
    lemma_socket_words();
    lemma_place_words();
    lemma_names(product);
    lemma_digits(0, socket.mode);
    let expected = socket_path(product, descriptor);
    let directory = unix_path::joined("/run"@, product);
    assert(unit_safe(directory)) by {
        lemma_plus("/run"@, seq!['/']);
        assert("/run"@.push('/') =~= "/run"@ + seq!['/']);
        lemma_plus("/run"@.push('/'), product);
        lemma_plus("/run"@, product);
    }
    let file = socket_file(descriptor);
    assert(unit_safe(expected)) by {
        lemma_plus(directory, seq!['/']);
        assert(directory.push('/') =~= directory + seq!['/']);
        lemma_plus(directory.push('/'), file);
        lemma_plus(directory, file);
    }
    lemma_same_path(socket.path@, expected);
    assert(unit_safe(group_text(socket.group))) by {
        if let Some(g) = socket.group {
            lemma_identifier(g@);
            lemma_plus("SocketGroup="@, g@);
            lemma_plus("SocketGroup="@ + g@, "\n"@);
        }
    }
    let a = "[Unit]\nDescription="@;
    let b = a + product;
    lemma_plus(a, product);
    let c = b + " "@;
    lemma_plus(b, " "@);
    let d = c + descriptor;
    lemma_plus(c, descriptor);
    let e = d + " socket\n\n[Socket]\nListenStream="@;
    lemma_plus(d, " socket\n\n[Socket]\nListenStream="@);
    let f = e + socket.path@;
    lemma_plus(e, socket.path@);
    let g = f + "\nFileDescriptorName="@;
    lemma_plus(f, "\nFileDescriptorName="@);
    let h = g + descriptor;
    lemma_plus(g, descriptor);
    let i = h + "\nService="@;
    lemma_plus(h, "\nService="@);
    let j = i + service_name(product);
    lemma_plus(i, service_name(product));
    let k = j + "\nAccept=no\nSocketMode="@;
    lemma_plus(j, "\nAccept=no\nSocketMode="@);
    let l = k + mode_text(socket.mode);
    lemma_plus(k, mode_text(socket.mode));
    let m = l + "\n"@;
    lemma_plus(l, "\n"@);
    let n = m + group_text(socket.group);
    lemma_plus(m, group_text(socket.group));
    lemma_plus(n, "DirectoryMode=0755\n\
           RemoveOnStop=yes\n\
           \n\
           [Install]\n\
           WantedBy=sockets.target\n"@);
}

/// The unit files of an accepted declaration hold no control character but line
/// feeds, and no percent sign, whatever the declaration says.
pub proof fn law_unit_files_are_safe(o: ManagedProductOptions)
    requires
        o.accepted(),
    ensures
        unit_safe(service_unit(o)),
        unit_safe(socket_unit(o.product@, "capulus"@, o.management_socket)),
        unit_safe(socket_unit(o.product@, "application"@, o.application_socket.socket())),
{
    lemma_service_unit(o);
    lemma_socket_unit(o.product@, "capulus"@, o.management_socket);
    lemma_socket_unit(o.product@, "application"@, o.application_socket.socket());
}

} // verus!
