//! Registration of the provider as a COM class and with AMSI.
//!
//! Everything stands under `HKEY_LOCAL_MACHINE`: the COM class with its
//! in-process server, and the entry that enrols the class as an AMSI provider.
use vstd::prelude::*;

verus! {

/// The class identifier of the provider. It never changes: a machine that was
/// registered under another one would be left with an orphan.
pub const PROVIDER_CLSID: &'static str = "{53E6920C-21B6-4826-9752-81485B3CBA2A}";

/// The class identifier as a number.
pub const PROVIDER_CLSID_U128: u128 = 0x53E6920C_21B6_4826_9752_81485B3CBA2A;

/// The name of the provider for people.
pub const PROVIDER_DISPLAY_NAME: &'static str = "Sentinella AMSI Provider";

/// The name of the value that holds the threading model of the server.
pub const THREADING_MODEL_NAME: &'static str = "ThreadingModel";

/// The threading model of the server.
pub const THREADING_MODEL: &'static str = "Both";

/// A key that registration creates.
#[derive(Debug, Clone, Copy, PartialEq, Eq, Structural)]
pub enum RegKey {
    /// The COM class.
    Root,
    /// Its in-process server.
    Inproc,
    /// The enrolment with AMSI.
    Amsi,
}

/// The path of the COM class.
pub open spec fn class_path() -> Seq<char> {
    r"SOFTWARE\Classes\CLSID\"@ + PROVIDER_CLSID@
}

impl RegKey {
    /// The path of a key below `HKEY_LOCAL_MACHINE`.
    pub open spec fn path(self) -> Seq<char> {
        match self {
            RegKey::Root => class_path(),
            RegKey::Inproc => class_path() + r"\InprocServer32"@,
            RegKey::Amsi => r"SOFTWARE\Microsoft\AMSI\Providers\"@ + PROVIDER_CLSID@,
        }
    }

    /// The default value of a key, for a provider in the given file.
    pub open spec fn default_value(self, dll: Seq<char>) -> Seq<char> {
        match self {
            RegKey::Inproc => dll,
            _ => PROVIDER_DISPLAY_NAME@,
        }
    }

    /// The path of this key below `HKEY_LOCAL_MACHINE`.
    pub fn subkey(self) -> (r: String)
        ensures
            r@ == self.path(),
    {
        match self {
            RegKey::Root => clsid_root_subkey(),
            RegKey::Inproc => clsid_inproc_subkey(),
            RegKey::Amsi => amsi_provider_subkey(),
        }
    }
}

/// The key of the in-process server.
pub fn clsid_inproc_subkey() -> (r: String)
    ensures
        r@ == RegKey::Inproc.path(),
{
    let mut out: String = clsid_root_subkey();
    out.append(r"\InprocServer32");
    out
}

/// The key of the COM class.
pub fn clsid_root_subkey() -> (r: String)
    ensures
        r@ == RegKey::Root.path(),
{
    let mut out: String = r"SOFTWARE\Classes\CLSID\".to_owned();
    out.append(PROVIDER_CLSID);
    out
}

/// The key that enrols the class as an AMSI provider.
pub fn amsi_provider_subkey() -> (r: String)
    ensures
        r@ == RegKey::Amsi.path(),
{
    let mut out: String = r"SOFTWARE\Microsoft\AMSI\Providers\".to_owned();
    out.append(PROVIDER_CLSID);
    out
}

/// A text with every backslash doubled.
pub open spec fn escaped(s: Seq<char>) -> Seq<char>
    decreases s.len(),
{
    if s.len() == 0 {
        s
    } else if s.last() == '\\' {
        escaped(s.drop_last()).push('\\').push('\\')
    } else {
        escaped(s.drop_last()).push(s.last())
    }
}

fn escape(s: &str) -> (r: String)
    ensures
        r@ == escaped(s@),
{
    let mut out: String = String::new();
    for c in it: s.chars()
        invariant
            out@ == escaped(s@.take(it.index())),
            it.seq() == s@,
    {
        proof {
            let next = s@.take(it.index() + 1);
            assert(next.drop_last() =~= s@.take(it.index()));
            assert(next.last() == c);
        }
        if c == '\\' {
            out.push('\\');
        }
        out.push(c);
    }
    proof {
        assert(s@.take(s@.len() as int) =~= s@);
    }
    out
}

/// The line of a `.reg` file that opens a key.
pub open spec fn key_line(path: Seq<char>) -> Seq<char> {
    "\r\n[HKEY_LOCAL_MACHINE\\"@ + escaped(path) + "]\r\n"@
}

/// The line of a `.reg` file that sets the default value of a key.
pub open spec fn default_line(data: Seq<char>) -> Seq<char> {
    "@=\""@ + data + "\"\r\n"@
}

/// The line of a `.reg` file that sets a named value of a key.
pub open spec fn value_line(name: Seq<char>, data: Seq<char>) -> Seq<char> {
    "\""@ + name + "\"=\""@ + data + "\"\r\n"@
}

/// The section of a `.reg` file for a key, for a provider in the given file.
pub open spec fn reg_section(key: RegKey, dll: Seq<char>) -> Seq<char> {
    let head = key_line(key.path()) + default_line(escaped(key.default_value(dll)));
    match key {
        RegKey::Inproc => head + value_line(THREADING_MODEL_NAME@, THREADING_MODEL@),
        _ => head,
    }
}

/// A `.reg` file that registers the provider in the given file.
pub open spec fn reg_file(dll: Seq<char>) -> Seq<char> {
    "Windows Registry Editor Version 5.00\r\n"@ + reg_section(RegKey::Root, dll) + reg_section(
        RegKey::Inproc,
        dll,
    ) + reg_section(RegKey::Amsi, dll)
}

/// Appends the lines of a `.reg` file that open a key and set its default.
fn append_section(out: &mut String, path: &str, data: &str)
    ensures
        final(out)@ == old(out)@ + (key_line(path@) + default_line(escaped(data@))),
{
    out.append("\r\n[HKEY_LOCAL_MACHINE\\");
    let path_text: String = escape(path);
    out.append(path_text.as_str());
    out.append("]\r\n");
    out.append("@=\"");
    let data_text: String = escape(data);
    out.append(data_text.as_str());
    out.append("\"\r\n");
    proof {
        assert(out@ =~= old(out)@ + (key_line(path@) + default_line(escaped(data@))));
    }
}

/// Builds a `.reg` file that registers the provider in the file `dll_path`.
pub fn reg_file_contents(dll_path: &str) -> (r: String)
    ensures
        r@ == reg_file(dll_path@),
{
    let mut out: String = "Windows Registry Editor Version 5.00\r\n".to_owned();
    let root: String = clsid_root_subkey();
    append_section(&mut out, root.as_str(), PROVIDER_DISPLAY_NAME);
    let inproc: String = clsid_inproc_subkey();
    append_section(&mut out, inproc.as_str(), dll_path);
    out.append("\"");
    out.append(THREADING_MODEL_NAME);
    out.append("\"=\"");
    out.append(THREADING_MODEL);
    out.append("\"\r\n");
    let amsi: String = amsi_provider_subkey();
    append_section(&mut out, amsi.as_str(), PROVIDER_DISPLAY_NAME);
    proof {
        assert(out@ =~= reg_file(dll_path@));
    }
    out
}

/// Where registration stands. Each variant but the last names the next action.
#[derive(Debug, Clone, Copy, PartialEq, Eq, Structural)]
pub enum RegistrationStage {
    /// Create the key, or open it if it is there.
    Create(RegKey),
    /// Set its default value.
    SetDefault(RegKey),
    /// Set the threading model of the server.
    SetThreadingModel,
    /// Close the key.
    Close(RegKey),
    Done,
}

impl RegistrationStage {
    /// The stage after an action that succeeded or failed. A key that cannot be
    /// created ends registration; a value that cannot be set does not.
    pub open spec fn after(self, success: bool) -> RegistrationStage {
        match self {
            RegistrationStage::Create(k) => if success {
                RegistrationStage::SetDefault(k)
            } else {
                RegistrationStage::Done
            },
            RegistrationStage::SetDefault(RegKey::Inproc) => if success {
                RegistrationStage::SetThreadingModel
            } else {
                RegistrationStage::Close(RegKey::Inproc)
            },
            RegistrationStage::SetDefault(k) => RegistrationStage::Close(k),
            RegistrationStage::SetThreadingModel => RegistrationStage::Close(RegKey::Inproc),
            RegistrationStage::Close(RegKey::Root) => RegistrationStage::Create(RegKey::Inproc),
            RegistrationStage::Close(RegKey::Inproc) => RegistrationStage::Create(RegKey::Amsi),
            RegistrationStage::Close(RegKey::Amsi) => RegistrationStage::Done,
            RegistrationStage::Done => RegistrationStage::Done,
        }
    }

    /// The result of the action counts. That of closing a key does not.
    pub open spec fn counts(self) -> bool {
        self !is Close && self !is Done
    }

    /// The key that is open at this stage.
    pub open spec fn open_key(self) -> Option<RegKey> {
        match self {
            RegistrationStage::SetDefault(k) => Some(k),
            RegistrationStage::SetThreadingModel => Some(RegKey::Inproc),
            RegistrationStage::Close(k) => Some(k),
            _ => None,
        }
    }
}

/// Where a run of registration begins.
pub open spec fn registration_begins(dll_known: bool) -> Registration {
    if dll_known {
        Registration { stage: RegistrationStage::Create(RegKey::Root), ok: true }
    } else {
        Registration { stage: RegistrationStage::Done, ok: false }
    }
}

/// A run of registration.
#[derive(Debug, Clone, Copy, PartialEq, Eq, Structural)]
pub struct Registration {
    pub stage: RegistrationStage,
    /// Nothing that counts has failed so far.
    pub ok: bool,
}

impl Registration {
    /// The run after an action that succeeded or failed.
    pub open spec fn after(self, success: bool) -> Registration {
        Registration {
            stage: self.stage.after(success),
            ok: self.ok && (self.stage.counts() ==> success),
        }
    }

    /// The run after a number of actions.
    pub open spec fn after_all(self, results: Seq<bool>) -> Registration
        decreases results.len(),
    {
        if results.len() == 0 {
            self
        } else {
            self.after_all(results.drop_last()).after(results.last())
        }
    }

    /// Starts registration. Without the path of the provider's own file there
    /// is nothing to register.
    pub fn start(dll_known: bool) -> (r: Registration)
        ensures
            r == (if dll_known {
                Registration { stage: RegistrationStage::Create(RegKey::Root), ok: true }
            } else {
                Registration { stage: RegistrationStage::Done, ok: false }
            }),
            r == registration_begins(dll_known),
    {
        if dll_known {
            Registration { stage: RegistrationStage::Create(RegKey::Root), ok: true }
        } else {
            Registration { stage: RegistrationStage::Done, ok: false }
        }
    }

    /// Takes in whether the action of this stage succeeded.
    pub fn step(&mut self, success: bool)
        ensures
            *final(self) == old(self).after(success),
    {
        match self.stage {
            RegistrationStage::Create(k) => {
                if success {
                    self.stage = RegistrationStage::SetDefault(k);
                } else {
                    self.ok = false;
                    self.stage = RegistrationStage::Done;
                }
            },
            RegistrationStage::SetDefault(RegKey::Inproc) => {
                if success {
                    self.stage = RegistrationStage::SetThreadingModel;
                } else {
                    self.ok = false;
                    self.stage = RegistrationStage::Close(RegKey::Inproc);
                }
            },
            RegistrationStage::SetDefault(k) => {
                self.ok = self.ok && success;
                self.stage = RegistrationStage::Close(k);
            },
            RegistrationStage::SetThreadingModel => {
                self.ok = self.ok && success;
                self.stage = RegistrationStage::Close(RegKey::Inproc);
            },
            RegistrationStage::Close(RegKey::Root) => {
                self.stage = RegistrationStage::Create(RegKey::Inproc);
            },
            RegistrationStage::Close(RegKey::Inproc) => {
                self.stage = RegistrationStage::Create(RegKey::Amsi);
            },
            RegistrationStage::Close(RegKey::Amsi) => {
                self.stage = RegistrationStage::Done;
            },
            RegistrationStage::Done => {},
        }
    }
}

/// The text that a key's default value is set to.
pub fn default_data(key: RegKey, dll: &str) -> (r: String)
    ensures
        r@ == key.default_value(dll@),
{
    match key {
        RegKey::Inproc => dll.to_owned(),
        _ => PROVIDER_DISPLAY_NAME.to_owned(),
    }
}

/// The keys that unregistering deletes.
pub open spec fn removed_keys() -> Seq<RegKey> {
    seq![RegKey::Root, RegKey::Amsi]
}

/// The keys that unregistering deletes, each with everything below it.
pub fn unregistered_keys() -> (r: Vec<RegKey>)
    ensures
        r@ == seq![RegKey::Root, RegKey::Amsi],
        r@ == removed_keys(),
{
    vec![RegKey::Root, RegKey::Amsi]
}

/// Doubling backslashes loses nothing: texts that differ stay different.
pub proof fn escaping_can_be_undone(a: Seq<char>, b: Seq<char>)
    requires
        escaped(a) == escaped(b),
    ensures
        a == b,
    decreases a.len() + b.len(),
{
    if a.len() == 0 {
        if b.len() > 0 {
            assert(escaped(b).len() > 0);
        }
    } else if b.len() == 0 {
        assert(escaped(a).len() > 0);
    } else {
        assert(escaped(a).last() == a.last());
        assert(escaped(b).last() == b.last());
        if a.last() == '\\' {
            assert(escaped(a.drop_last()) =~= escaped(a).drop_last().drop_last());
            assert(escaped(b.drop_last()) =~= escaped(b).drop_last().drop_last());
        } else {
            assert(escaped(a.drop_last()) =~= escaped(a).drop_last());
            assert(escaped(b.drop_last()) =~= escaped(b).drop_last());
        }
        escaping_can_be_undone(a.drop_last(), b.drop_last());
        assert(a =~= a.drop_last().push(a.last()));
        assert(b =~= b.drop_last().push(b.last()));
    }
}

/// A run is all right exactly while every action whose result counts has
/// succeeded.
pub proof fn registration_succeeds_only_as_a_whole(start: Registration, results: Seq<bool>)
    requires
        start.ok,
    ensures
        start.after_all(results).ok <==> forall|i: int|
            0 <= i < results.len() && (#[trigger] start.after_all(results.take(i))).stage.counts()
                ==> results[i],
    decreases results.len(),
{
    if results.len() > 0 {
        let before = results.drop_last();
        registration_succeeds_only_as_a_whole(start, before);
        assert(results.take(results.len() - 1) =~= before);
        assert forall|i: int| 0 <= i < before.len() implies #[trigger] before.take(i)
            == results.take(i) by {
            assert(before.take(i) =~= results.take(i));
        }
        assert(start.after_all(results.take(results.len() - 1)).stage == start.after_all(
            before,
        ).stage);
        if start.after_all(results).ok {
            assert forall|i: int|
                0 <= i < results.len() && (#[trigger] start.after_all(
                    results.take(i),
                )).stage.counts() implies results[i] by {
                if i < before.len() {
                    assert(before.take(i) == results.take(i));
                    assert(start.after_all(before.take(i)).stage.counts());
                    assert(before[i] == results[i]);
                }
            }
        } else if start.after_all(before).ok {
            let last = results.len() - 1;
            assert(start.after_all(results.take(last)).stage.counts() && !results[last]);
        } else {
            let i = choose|i: int|
                0 <= i < before.len() && (#[trigger] start.after_all(
                    before.take(i),
                )).stage.counts() && !before[i];
            assert(before.take(i) == results.take(i));
            assert(start.after_all(results.take(i)).stage.counts() && !results[i]);
        }
    }
}

/// The run after one more action.
proof fn lemma_next(start: Registration, results: Seq<bool>, i: int)
    requires
        0 <= i < results.len(),
    ensures
        start.after_all(results.take(i + 1)) == start.after_all(results.take(i)).after(results[i]),
{
    assert(results.take(i + 1).drop_last() =~= results.take(i));
}

/// A run comes through a stage and performs its action.
pub open spec fn visits(start: Registration, results: Seq<bool>, stage: RegistrationStage) -> bool {
    exists|i: int|
        0 <= i < results.len() && (#[trigger] start.after_all(results.take(i))).stage == stage
}

/// A run in which nothing fails sets every value of every key, in ten actions,
/// and succeeds.
pub proof fn a_clean_run_registers_everything(start: Registration, results: Seq<bool>)
    requires
        start == (Registration { stage: RegistrationStage::Create(RegKey::Root), ok: true }),
        results.len() == 10,
        forall|i: int| 0 <= i < results.len() ==> results[i],
    ensures
        start.after_all(results) == (Registration { stage: RegistrationStage::Done, ok: true }),
        forall|k: RegKey| #[trigger]
            visits(start, results, RegistrationStage::SetDefault(k)),
        visits(start, results, RegistrationStage::SetThreadingModel),
{
    assert(start.after_all(results.take(0)) == start);
    lemma_next(start, results, 0);
    lemma_next(start, results, 1);
    lemma_next(start, results, 2);
    lemma_next(start, results, 3);
    lemma_next(start, results, 4);
    lemma_next(start, results, 5);
    lemma_next(start, results, 6);
    lemma_next(start, results, 7);
    lemma_next(start, results, 8);
    lemma_next(start, results, 9);
    assert(results.take(10) =~= results);
    assert forall|k: RegKey| #[trigger]
        visits(start, results, RegistrationStage::SetDefault(k)) by {
        match k {
            RegKey::Root => {
                assert(start.after_all(results.take(1)).stage == RegistrationStage::SetDefault(k));
            },
            RegKey::Inproc => {
                assert(start.after_all(results.take(4)).stage == RegistrationStage::SetDefault(k));
            },
            RegKey::Amsi => {
                assert(start.after_all(results.take(8)).stage == RegistrationStage::SetDefault(k));
            },
        }
    }
    assert(start.after_all(results.take(5)).stage == RegistrationStage::SetThreadingModel);
}

/// A key that was opened stays open until it is closed: no failure leaves one
/// behind.
pub proof fn every_opened_key_is_closed(stage: RegistrationStage, success: bool)
    ensures
        stage.open_key() is Some && stage !is Close ==> stage.after(success).open_key()
            == stage.open_key(),
        stage.after(success) is Done ==> stage.open_key() is None || stage is Close,
{
}

/// Unregistering deletes every key that registering creates, or one above it.
pub proof fn unregistering_covers_registering(key: RegKey)
    ensures
        exists|above: RegKey|
            seq![RegKey::Root, RegKey::Amsi].contains(above) && (key == above || (
            #[trigger] above.path() + r"\"@).is_prefix_of(key.path())),
{
    let removed = seq![RegKey::Root, RegKey::Amsi];
    assert(removed[0] == RegKey::Root && removed[1] == RegKey::Amsi);
    match key {
        RegKey::Inproc => {
            reveal_strlit(r"\");
            reveal_strlit(r"\InprocServer32");
            let above = RegKey::Root;
            assert(r"\InprocServer32"@[0] == '\\');
            assert((above.path() + r"\"@).is_prefix_of(key.path())) by {
                assert((above.path() + r"\"@) =~= key.path().take(above.path().len() as int + 1));
            }
            assert(removed.contains(above));
        },
        k => {
            assert(removed.contains(k));
            assert(k.path() == key.path());
        },
    }
}

/// Escaping is by parts, and of one character it doubles a backslash and keeps
/// anything else.
pub proof fn escaping_is_by_parts(a: Seq<char>, b: Seq<char>, c: char)
    ensures
        escaped(a + b) == escaped(a) + escaped(b),
        escaped(seq![c]) == if c == '\\' {
            seq!['\\', '\\']
        } else {
            seq![c]
        },
        escaped(Seq::<char>::empty()) == Seq::<char>::empty(),
    decreases b.len(),
{
    assert(seq![c].drop_last() =~= Seq::<char>::empty());
    assert(escaped(seq![c].drop_last()) =~= Seq::<char>::empty());
    if b.len() == 0 {
        assert(a + b =~= a);
        assert(escaped(a) + escaped(b) =~= escaped(a));
    } else {
        assert((a + b).drop_last() =~= a + b.drop_last());
        escaping_is_by_parts(a, b.drop_last(), c);
        assert(escaped(a + b) =~= escaped(a) + escaped(b));
    }
}

/// A text without a backslash stays as it is.
pub proof fn without_backslashes_nothing_is_escaped(s: Seq<char>)
    requires
        forall|i: int| 0 <= i < s.len() ==> #[trigger] s[i] != '\\',
    ensures
        escaped(s) == s,
    decreases s.len(),
{
    if s.len() > 0 {
        assert forall|i: int| 0 <= i < s.len() - 1 implies #[trigger] s.drop_last()[i] != '\\' by {
            assert(s.drop_last()[i] == s[i]);
        }
        without_backslashes_nothing_is_escaped(s.drop_last());
        assert(s.last() == s[s.len() - 1]);
        assert(s =~= s.drop_last().push(s.last()));
    }
}

/// What is registered, and where: the class and the enrolment under the name of
/// the provider, the server under the path of its own file.
pub proof fn the_keys_that_are_registered(dll: Seq<char>)
    ensures
        RegKey::Root.path() == r"SOFTWARE\Classes\CLSID\{53E6920C-21B6-4826-9752-81485B3CBA2A}"@,
        RegKey::Inproc.path()
            == r"SOFTWARE\Classes\CLSID\{53E6920C-21B6-4826-9752-81485B3CBA2A}\InprocServer32"@,
        RegKey::Amsi.path()
            == r"SOFTWARE\Microsoft\AMSI\Providers\{53E6920C-21B6-4826-9752-81485B3CBA2A}"@,
        RegKey::Root.default_value(dll) == "Sentinella AMSI Provider"@,
        RegKey::Amsi.default_value(dll) == "Sentinella AMSI Provider"@,
        RegKey::Inproc.default_value(dll) == dll,
{
    reveal_strlit(r"SOFTWARE\Classes\CLSID\");
    reveal_strlit(r"\InprocServer32");
    reveal_strlit(r"SOFTWARE\Microsoft\AMSI\Providers\");
    reveal_strlit("{53E6920C-21B6-4826-9752-81485B3CBA2A}");
    reveal_strlit(r"SOFTWARE\Classes\CLSID\{53E6920C-21B6-4826-9752-81485B3CBA2A}");
    reveal_strlit(
        r"SOFTWARE\Classes\CLSID\{53E6920C-21B6-4826-9752-81485B3CBA2A}\InprocServer32",
    );
    reveal_strlit(r"SOFTWARE\Microsoft\AMSI\Providers\{53E6920C-21B6-4826-9752-81485B3CBA2A}");
    assert(RegKey::Root.path()
        =~= r"SOFTWARE\Classes\CLSID\{53E6920C-21B6-4826-9752-81485B3CBA2A}"@);
    assert(RegKey::Inproc.path()
        =~= r"SOFTWARE\Classes\CLSID\{53E6920C-21B6-4826-9752-81485B3CBA2A}\InprocServer32"@);
    assert(RegKey::Amsi.path()
        =~= r"SOFTWARE\Microsoft\AMSI\Providers\{53E6920C-21B6-4826-9752-81485B3CBA2A}"@);
}

/// A `.reg` file is the same for every provider but for one place: the default
/// value of the server, where the escaped path of the provider's file stands.
pub proof fn a_reg_file_differs_only_in_the_path(dll: Seq<char>)
    ensures
        reg_file(dll) == ("Windows Registry Editor Version 5.00\r\n"@ + "\r\n[HKEY_LOCAL_MACHINE\\"@
            + escaped(RegKey::Root.path()) + "]\r\n"@ + "@=\""@ + escaped(
            "Sentinella AMSI Provider"@,
        ) + "\"\r\n"@ + "\r\n[HKEY_LOCAL_MACHINE\\"@ + escaped(RegKey::Inproc.path()) + "]\r\n"@
            + "@=\""@) + escaped(dll) + ("\"\r\n"@ + "\""@ + "ThreadingModel"@ + "\"=\""@ + "Both"@
            + "\"\r\n"@ + "\r\n[HKEY_LOCAL_MACHINE\\"@ + escaped(RegKey::Amsi.path()) + "]\r\n"@
            + "@=\""@ + escaped("Sentinella AMSI Provider"@) + "\"\r\n"@),
{
    let before = "Windows Registry Editor Version 5.00\r\n"@ + "\r\n[HKEY_LOCAL_MACHINE\\"@
        + escaped(RegKey::Root.path()) + "]\r\n"@ + "@=\""@ + escaped("Sentinella AMSI Provider"@)
        + "\"\r\n"@ + "\r\n[HKEY_LOCAL_MACHINE\\"@ + escaped(RegKey::Inproc.path()) + "]\r\n"@
        + "@=\""@;
    let after = "\"\r\n"@ + "\""@ + "ThreadingModel"@ + "\"=\""@ + "Both"@ + "\"\r\n"@
        + "\r\n[HKEY_LOCAL_MACHINE\\"@ + escaped(RegKey::Amsi.path()) + "]\r\n"@ + "@=\""@ + escaped(
        "Sentinella AMSI Provider"@,
    ) + "\"\r\n"@;
    assert(reg_file(dll) =~= before + escaped(dll) + after);
}

/// Registration begins with the class, and not at all without the provider's own
/// file. A run goes through the keys in order: the class, its server with the
/// threading model, the enrolment. Only a key that cannot be created ends it early;
/// a server without its path is closed at once.
pub proof fn registration_goes_key_by_key(success: bool)
    ensures
        registration_begins(true) == (Registration {
            stage: RegistrationStage::Create(RegKey::Root),
            ok: true,
        }),
        registration_begins(false).stage is Done && !registration_begins(false).ok,
        forall|k: RegKey| #[trigger]
            RegistrationStage::Create(k).after(true) == RegistrationStage::SetDefault(k),
        forall|k: RegKey| (#[trigger] RegistrationStage::Create(k).after(false)) is Done,
        RegistrationStage::SetDefault(RegKey::Root).after(success) == RegistrationStage::Close(
            RegKey::Root,
        ),
        RegistrationStage::SetDefault(RegKey::Amsi).after(success) == RegistrationStage::Close(
            RegKey::Amsi,
        ),
        RegistrationStage::SetDefault(RegKey::Inproc).after(true)
            == RegistrationStage::SetThreadingModel,
        RegistrationStage::SetDefault(RegKey::Inproc).after(false) == RegistrationStage::Close(
            RegKey::Inproc,
        ),
        RegistrationStage::SetThreadingModel.after(success) == RegistrationStage::Close(
            RegKey::Inproc,
        ),
        RegistrationStage::Close(RegKey::Root).after(success) == RegistrationStage::Create(
            RegKey::Inproc,
        ),
        RegistrationStage::Close(RegKey::Inproc).after(success) == RegistrationStage::Create(
            RegKey::Amsi,
        ),
        RegistrationStage::Close(RegKey::Amsi).after(success) is Done,
{
}

/// What is reported as registered had no failure but, at most, in closing a key;
/// what failed once stays failed.
pub proof fn a_failure_is_never_forgotten(run: Registration, success: bool)
    ensures
        run.after(success).ok ==> run.ok,
        run.ok && success ==> run.after(success).ok,
        run.ok && !success ==> (run.after(success).ok <==> run.stage is Close || run.stage is Done),
{
}

/// Unregistering deletes the class, with its server below it, and the enrolment,
/// and nothing else.
pub proof fn unregistering_deletes_the_class_and_the_enrolment(key: RegKey)
    ensures
        removed_keys().len() == 2,
        removed_keys().contains(key) <==> key is Root || key is Amsi,
{
    assert(removed_keys()[0] == RegKey::Root);
    assert(removed_keys()[1] == RegKey::Amsi);
}

} // verus!
