//! UEFI variables: status codes, the kernel's variable namespace, UTF-16 names, and the
//! shell commands that store, read and delete variables through a variable store.
use vstd::prelude::*;
use crate::text::{chars_of, dec, decode_utf8, hex_upper, push_dec, push_hex_upper, push_str, string_of};

verus! {

/// A UEFI status code (a UINTN on x86-64); the high bit marks errors.
#[allow(non_camel_case_types)]
#[derive(Debug, Clone, Copy, PartialEq, Eq, Structural)]
pub struct EFI_STATUS(pub u64);

pub const EFI_SUCCESS: u64 = 0;
pub const EFI_INVALID_PARAMETER: u64 = 0x8000_0000_0000_0002;
pub const EFI_UNSUPPORTED: u64 = 0x8000_0000_0000_0003;
pub const EFI_BUFFER_TOO_SMALL: u64 = 0x8000_0000_0000_0005;
pub const EFI_NOT_READY: u64 = 0x8000_0000_0000_0006;
pub const EFI_DEVICE_ERROR: u64 = 0x8000_0000_0000_0007;
pub const EFI_NOT_FOUND: u64 = 0x8000_0000_0000_000E;
pub const EFI_VOLUME_FULL: u64 = 0x8000_0000_0000_000B;
pub const EFI_ACCESS_DENIED: u64 = 0x8000_0000_0000_000F;

pub const EFI_VARIABLE_NON_VOLATILE: u32 = 0x0000_0001;
pub const EFI_VARIABLE_BOOTSERVICE_ACCESS: u32 = 0x0000_0002;
pub const EFI_VARIABLE_RUNTIME_ACCESS: u32 = 0x0000_0004;
/// Non-volatile, and visible at boot and at run time.
pub const EFI_VARIABLE_STANDARD_ATTRIBUTES: u32 = 0x0000_0007;

/// The name of a status code.
pub open spec fn status_name(v: u64) -> Seq<char> {
    if v == EFI_SUCCESS {
        "EFI_SUCCESS"@
    } else if v == EFI_INVALID_PARAMETER {
        "EFI_INVALID_PARAMETER"@
    } else if v == EFI_UNSUPPORTED {
        "EFI_UNSUPPORTED"@
    } else if v == EFI_BUFFER_TOO_SMALL {
        "EFI_BUFFER_TOO_SMALL"@
    } else if v == EFI_NOT_READY {
        "EFI_NOT_READY"@
    } else if v == EFI_DEVICE_ERROR {
        "EFI_DEVICE_ERROR"@
    } else if v == EFI_NOT_FOUND {
        "EFI_NOT_FOUND"@
    } else if v == EFI_VOLUME_FULL {
        "EFI_VOLUME_FULL"@
    } else if v == EFI_ACCESS_DENIED {
        "EFI_ACCESS_DENIED"@
    } else if v >= 0x8000_0000_0000_0000 {
        "EFI_ERROR (high bit set)"@
    } else {
        "EFI_SUCCESS (unknown)"@
    }
}

/// How a status is shown: its name and its value in hexadecimal.
pub open spec fn status_text(v: u64) -> Seq<char> {
    status_name(v) + " (0x"@ + hex_upper(v as nat) + ")"@
}

impl EFI_STATUS {
    pub fn name(&self) -> (res: &'static str)
        ensures
            res@ == status_name(self.0),
    {
        let v = self.0;
        if v == EFI_SUCCESS {
            "EFI_SUCCESS"
        } else if v == EFI_INVALID_PARAMETER {
            "EFI_INVALID_PARAMETER"
        } else if v == EFI_UNSUPPORTED {
            "EFI_UNSUPPORTED"
        } else if v == EFI_BUFFER_TOO_SMALL {
            "EFI_BUFFER_TOO_SMALL"
        } else if v == EFI_NOT_READY {
            "EFI_NOT_READY"
        } else if v == EFI_DEVICE_ERROR {
            "EFI_DEVICE_ERROR"
        } else if v == EFI_NOT_FOUND {
            "EFI_NOT_FOUND"
        } else if v == EFI_VOLUME_FULL {
            "EFI_VOLUME_FULL"
        } else if v == EFI_ACCESS_DENIED {
            "EFI_ACCESS_DENIED"
        } else if v >= 0x8000_0000_0000_0000 {
            "EFI_ERROR (high bit set)"
        } else {
            "EFI_SUCCESS (unknown)"
        }
    }

    /// `NAME (0xHEX)`, as the status is displayed.
    pub fn describe(&self) -> (res: String)
        ensures
            res@ == status_text(self.0),
    {
        let mut s = string_of(self.name());
        push_str(&mut s, " (0x");
        push_hex_upper(&mut s, self.0);
        push_str(&mut s, ")");
        s
    }
}

/// A GUID naming a namespace of variables.
#[allow(non_camel_case_types)]
#[derive(Debug, Clone, Copy, PartialEq, Eq)]
pub struct EFI_GUID {
    pub data1: u32,
    pub data2: u16,
    pub data3: u16,
    pub data4: [u8; 8],
}

impl EFI_GUID {
    pub fn new(data1: u32, data2: u16, data3: u16, data4: [u8; 8]) -> (res: Self)
        ensures
            res.data1 == data1 && res.data2 == data2 && res.data3 == data3 && res.data4 == data4,
    {
        EFI_GUID { data1, data2, data3, data4 }
    }
}

/// The kernel's namespace: `MESA` `OS` 0001 00..01.
pub fn mesa_kernel_guid() -> (res: EFI_GUID)
    ensures
        res.data1 == 0x4d455341 && res.data2 == 0x4f53 && res.data3 == 0x0001,
        res.data4@ == seq![0u8, 0, 0, 0, 0, 0, 0, 1],
{
    let g = EFI_GUID::new(0x4d455341, 0x4f53, 0x0001, [0, 0, 0, 0, 0, 0, 0, 1]);
    assert(g.data4@ =~= seq![0u8, 0, 0, 0, 0, 0, 0, 1]);
    g
}

/// The UTF-16 code units of one character: itself below 0x10000, a surrogate pair above.
pub open spec fn utf16_units(c: char) -> Seq<u16> {
    let v = c as u32;
    if v < 0x1_0000 {
        seq![v as u16]
    } else {
        let u = (v - 0x1_0000) as u32;
        seq![(0xD800 + u / 1024) as u16, (0xDC00 + u % 1024) as u16]
    }
}

/// The UTF-16 encoding of a text.
pub open spec fn utf16_of(cs: Seq<char>) -> Seq<u16>
    decreases cs.len(),
{
    if cs.len() == 0 { Seq::empty() } else { utf16_of(cs.drop_last()) + utf16_units(cs.last()) }
}

/// A text in UTF-16 with a terminating zero, as UEFI takes variable names.
pub fn str_to_utf16(s: &str) -> (res: Vec<u16>)
    ensures
        res@ == utf16_of(s@).push(0),
{
    let cs = chars_of(s);
    let mut out: Vec<u16> = Vec::new();
    let mut i: usize = 0;
    while i < cs.len()
        invariant
            cs@ == s@,
            i <= cs@.len(),
            out@ == utf16_of(cs@.subrange(0, i as int)),
        decreases cs@.len() - i,
    {
        let c = cs[i];
        let v = c as u32;
        if v < 0x1_0000 {
            out.push(v as u16);
        } else {
            let u = v - 0x1_0000;
            out.push((0xD800 + u / 1024) as u16);
            out.push((0xDC00 + u % 1024) as u16);
        }
        proof {
            let p = cs@.subrange(0, i + 1);
            assert(p.drop_last() =~= cs@.subrange(0, i as int));
            assert(p.last() == c);
            assert(out@ =~= utf16_of(p));
        }
        i = i + 1;
    }
    assert(cs@.subrange(0, cs@.len() as int) =~= s@);
    out.push(0);
    out
}

// ---------------------------------------------------------------------------
// Shell commands.

/// How a line of command output is shown.
#[derive(Debug, Clone, Copy, PartialEq, Eq, Structural)]
pub enum Tone {
    Plain,
    Info,
    Success,
    Error,
}

/// A line of command output.
pub struct ShellLine {
    pub tone: Tone,
    pub text: String,
}

fn line(tone: Tone, text: String) -> (res: ShellLine)
    ensures
        res.tone == tone && res.text@ == text@,
{
    ShellLine { tone, text }
}

/// The words joined with single spaces.
pub open spec fn join_words(ws: Seq<Seq<char>>) -> Seq<char>
    decreases ws.len(),
{
    if ws.len() == 0 {
        Seq::empty()
    } else if ws.len() == 1 {
        ws[0]
    } else {
        join_words(ws.drop_last()) + " "@ + ws.last()
    }
}

pub open spec fn strs_view(v: Seq<&str>) -> Seq<Seq<char>> {
    Seq::new(v.len(), |i: int| v[i]@)
}

fn join_from(args: &[&str], from: usize) -> (res: String)
    requires
        from < args@.len(),
    ensures
        res@ == join_words(strs_view(args@).subrange(from as int, args@.len() as int)),
{
    let mut s = string_of(args[from]);
    let mut i = from + 1;
    proof {
        let w = strs_view(args@).subrange(from as int, from + 1);
        assert(w.len() == 1);
    }
    while i < args.len()
        invariant
            from < i <= args@.len(),
            s@ == join_words(strs_view(args@).subrange(from as int, i as int)),
        decreases args@.len() - i,
    {
        push_str(&mut s, " ");
        push_str(&mut s, args[i]);
        proof {
            let w = strs_view(args@).subrange(from as int, i + 1);
            assert(w.drop_last() =~= strs_view(args@).subrange(from as int, i as int));
            assert(w.last() == args@[i as int]@);
        }
        i = i + 1;
    }
    s
}

/// What `nvram_set` reports for the store's answer.
pub open spec fn set_report(name: Seq<char>, r: Result<(), EFI_STATUS>) -> (Tone, Seq<char>) {
    match r {
        Ok(()) => (Tone::Success, "Variable '"@ + name + "' guardada en NVRAM"@),
        Err(st) => (Tone::Error, "Error guardando variable: "@ + status_text(st.0)),
    }
}

/// What `nvram_get` reports for the store's answer.
pub open spec fn get_report(name: Seq<char>, r: Result<Vec<u8>, EFI_STATUS>) -> (Tone, Seq<char>) {
    match r {
        Ok(data) => if vstd::utf8::valid_utf8(data@) {
            (Tone::Success, "Variable '"@ + name + "': \""@ + vstd::utf8::decode_utf8(data@) + "\""@)
        } else {
            (Tone::Success, "Variable '"@ + name + "' ("@ + dec(data@.len()) + " bytes)"@)
        },
        Err(st) => if st.0 == EFI_NOT_FOUND {
            (Tone::Error, "Variable '"@ + name + "' no encontrada (EFI_NOT_FOUND)"@)
        } else {
            (Tone::Error, "Error leyendo variable: "@ + status_text(st.0))
        },
    }
}

/// What `nvram_del` reports for the store's answer.
pub open spec fn del_report(name: Seq<char>, r: Result<(), EFI_STATUS>) -> (Tone, Seq<char>) {
    match r {
        Ok(()) => (Tone::Success, "Variable '"@ + name + "' eliminada de NVRAM"@),
        Err(st) => if st.0 == EFI_NOT_FOUND {
            (Tone::Error, "Variable '"@ + name + "' no encontrada"@)
        } else {
            (Tone::Error, "Error eliminando variable: "@ + status_text(st.0))
        },
    }
}

pub fn set_outcome(name: &str, r: Result<(), EFI_STATUS>) -> (res: ShellLine)
    ensures
        (res.tone, res.text@) == set_report(name@, r),
{
    match r {
        Ok(()) => {
            let mut s = string_of("Variable '");
            push_str(&mut s, name);
            push_str(&mut s, "' guardada en NVRAM");
            line(Tone::Success, s)
        },
        Err(st) => {
            let mut s = string_of("Error guardando variable: ");
            push_str(&mut s, st.describe().as_str());
            line(Tone::Error, s)
        },
    }
}

pub fn get_outcome(name: &str, r: Result<Vec<u8>, EFI_STATUS>) -> (res: ShellLine)
    ensures
        (res.tone, res.text@) == get_report(name@, r),
{
    match r {
        Ok(data) => {
            let mut s = string_of("Variable '");
            push_str(&mut s, name);
            match decode_utf8(data.as_slice()) {
                Some(t) => {
                    push_str(&mut s, "': \"");
                    push_str(&mut s, t.as_str());
                    push_str(&mut s, "\"");
                },
                None => {
                    push_str(&mut s, "' (");
                    push_dec(&mut s, data.len() as u64);
                    push_str(&mut s, " bytes)");
                },
            }
            line(Tone::Success, s)
        },
        Err(st) => {
            if st.0 == EFI_NOT_FOUND {
                let mut s = string_of("Variable '");
                push_str(&mut s, name);
                push_str(&mut s, "' no encontrada (EFI_NOT_FOUND)");
                line(Tone::Error, s)
            } else {
                let mut s = string_of("Error leyendo variable: ");
                push_str(&mut s, st.describe().as_str());
                line(Tone::Error, s)
            }
        },
    }
}

pub fn del_outcome(name: &str, r: Result<(), EFI_STATUS>) -> (res: ShellLine)
    ensures
        (res.tone, res.text@) == del_report(name@, r),
{
    match r {
        Ok(()) => {
            let mut s = string_of("Variable '");
            push_str(&mut s, name);
            push_str(&mut s, "' eliminada de NVRAM");
            line(Tone::Success, s)
        },
        Err(st) => {
            if st.0 == EFI_NOT_FOUND {
                let mut s = string_of("Variable '");
                push_str(&mut s, name);
                push_str(&mut s, "' no encontrada");
                line(Tone::Error, s)
            } else {
                let mut s = string_of("Error eliminando variable: ");
                push_str(&mut s, st.describe().as_str());
                line(Tone::Error, s)
            }
        },
    }
}

/// A call the shell commands make on the firmware's variable services: the variable's
/// name in UTF-16 with a terminating zero, its namespace, and the bytes to store (empty
/// for a read or a deletion).
pub struct NvramCall {
    pub name: Vec<u16>,
    pub guid: EFI_GUID,
    pub data: Vec<u8>,
}

/// The kernel's namespace, {4d455341-4f53-0001-0000-000000000001}.
pub open spec fn is_kernel_guid(g: EFI_GUID) -> bool {
    g.data1 == 0x4d455341 && g.data2 == 0x4f53 && g.data3 == 0x0001 && g.data4@ == seq![0u8, 0, 0, 0, 0, 0, 0, 1]
}

/// `nvram_set <name> <value...>`: the usage line when a value is missing; otherwise the
/// call that stores the words after the name, joined by spaces, as the variable's UTF-8
/// bytes in the kernel's namespace. `set_outcome` gives the line for the firmware's answer.
pub fn cmd_nvram_set(args: &[&str]) -> (res: Result<NvramCall, ShellLine>)
    ensures
        args@.len() < 2 ==> (res matches Err(l) && l.tone == Tone::Plain && l.text@ == "Uso: nvram_set <nombre> <valor>"@),
        args@.len() >= 2 ==> (res matches Ok(c) && c.name@ == utf16_of(args@[0]@).push(0) && is_kernel_guid(c.guid)
            && c.data@ == vstd::utf8::encode_utf8(join_words(strs_view(args@).subrange(1, args@.len() as int)))),
{
    if args.len() < 2 {
        return Err(line(Tone::Plain, string_of("Uso: nvram_set <nombre> <valor>")));
    }
    let value = join_from(args, 1);
    let data = value.as_str().as_bytes_vec();
    Ok(NvramCall { name: str_to_utf16(args[0]), guid: mesa_kernel_guid(), data })
}

/// `nvram_get <name>`: the usage line without a name; otherwise the call that reads the
/// variable from the kernel's namespace. `get_outcome` gives the line for the answer.
pub fn cmd_nvram_get(args: &[&str]) -> (res: Result<NvramCall, ShellLine>)
    ensures
        args@.len() == 0 ==> (res matches Err(l) && l.tone == Tone::Error && l.text@ == "Uso: nvram_get <nombre>"@),
        args@.len() > 0 ==> (res matches Ok(c) && c.name@ == utf16_of(args@[0]@).push(0) && is_kernel_guid(c.guid)
            && c.data@.len() == 0),
{
    if args.len() == 0 {
        return Err(line(Tone::Error, string_of("Uso: nvram_get <nombre>")));
    }
    Ok(NvramCall { name: str_to_utf16(args[0]), guid: mesa_kernel_guid(), data: Vec::new() })
}

/// `nvram_del <name>`: the usage line without a name; otherwise the call that deletes
/// the variable from the kernel's namespace. `del_outcome` gives the line for the answer.
pub fn cmd_nvram_del(args: &[&str]) -> (res: Result<NvramCall, ShellLine>)
    ensures
        args@.len() == 0 ==> (res matches Err(l) && l.tone == Tone::Error && l.text@ == "Uso: nvram_del <nombre>"@),
        args@.len() > 0 ==> (res matches Ok(c) && c.name@ == utf16_of(args@[0]@).push(0) && is_kernel_guid(c.guid)
            && c.data@.len() == 0),
{
    if args.len() == 0 {
        return Err(line(Tone::Error, string_of("Uso: nvram_del <nombre>")));
    }
    Ok(NvramCall { name: str_to_utf16(args[0]), guid: mesa_kernel_guid(), data: Vec::new() })
}

pub open spec fn lines_view(v: Seq<ShellLine>) -> Seq<(Tone, Seq<char>)> {
    Seq::new(v.len(), |i: int| (v[i].tone, v[i].text@))
}

fn push_out(v: &mut Vec<ShellLine>, tone: Tone, text: &str)
    ensures
        lines_view(final(v)@) == lines_view(old(v)@).push((tone, text@)),
{
    v.push(line(tone, string_of(text)));
    assert(lines_view(v@) =~= lines_view(old(v)@).push((tone, text@)));
}

/// `nvram_list`: the namespace's listing needs the runtime services, so it explains how
/// to use the other commands.
pub fn cmd_nvram_list(args: &[&str]) -> (res: Vec<ShellLine>)
    ensures
        lines_view(res@) == seq![(Tone::Plain, "=== Variables UEFI en Namespace MesaOS ==="@),
            (Tone::Plain, "  (Requiere inicializaci\u{f3}n UEFI Runtime Services)"@),
            (Tone::Plain, "  Usa 'nvram_test' para probar el subsistema"@), (Tone::Plain, ""@)],
{
    let mut v: Vec<ShellLine> = Vec::new();
    push_out(&mut v, Tone::Plain, "=== Variables UEFI en Namespace MesaOS ===");
    push_out(&mut v, Tone::Plain, "  (Requiere inicializaci\u{f3}n UEFI Runtime Services)");
    push_out(&mut v, Tone::Plain, "  Usa 'nvram_test' para probar el subsistema");
    push_out(&mut v, Tone::Plain, "");
    v
}

/// `nvram_test`: how to try the commands on firmware with runtime services.
pub fn cmd_nvram_test(args: &[&str]) -> (res: Vec<ShellLine>)
    ensures
        lines_view(res@) == seq![(Tone::Plain, "=== Test de UEFI NVRAM ==="@), (Tone::Plain, ""@),
            (Tone::Info, "Nota: UEFI Runtime Services requieren acceso"@),
            (Tone::Info, "al puntero EFI_SYSTEM_TABLE del bootloader."@), (Tone::Plain, ""@),
            (Tone::Info, "Para probar en hardware real o QEMU con UEFI:"@),
            (Tone::Plain, "  nvram_set MiVariable \"Hola NVRAM\""@), (Tone::Plain, "  nvram_get MiVariable"@),
            (Tone::Plain, "  nvram_del MiVariable"@), (Tone::Plain, ""@)],
{
    let mut v: Vec<ShellLine> = Vec::new();
    push_out(&mut v, Tone::Plain, "=== Test de UEFI NVRAM ===");
    push_out(&mut v, Tone::Plain, "");
    push_out(&mut v, Tone::Info, "Nota: UEFI Runtime Services requieren acceso");
    push_out(&mut v, Tone::Info, "al puntero EFI_SYSTEM_TABLE del bootloader.");
    push_out(&mut v, Tone::Plain, "");
    push_out(&mut v, Tone::Info, "Para probar en hardware real o QEMU con UEFI:");
    push_out(&mut v, Tone::Plain, "  nvram_set MiVariable \"Hola NVRAM\"");
    push_out(&mut v, Tone::Plain, "  nvram_get MiVariable");
    push_out(&mut v, Tone::Plain, "  nvram_del MiVariable");
    push_out(&mut v, Tone::Plain, "");
    v
}

} // verus!
