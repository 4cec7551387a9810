//! The persisted state of the authority as one record of named fields, the
//! serial-number allocator over it, the closed set of storage backends, and
//! the namespace resolution the remote backend uses.

use vstd::prelude::*;

use crate::decimal;
use crate::PkiError;

verus! {

/// The three persisted fields; a missing field is `None`, never an error.
#[derive(Clone, Debug, PartialEq, Eq)]
pub struct StorageRecord {
    pub ca_key: Option<Vec<u8>>,
    pub ca_cert: Option<Vec<u8>>,
    pub serial: Option<Vec<u8>>,
}

/// Mathematical image of a `StorageRecord`.
pub struct RecordView {
    pub ca_key: Option<Seq<u8>>,
    pub ca_cert: Option<Seq<u8>>,
    pub serial: Option<Seq<u8>>,
}

/// The view of an optional byte field.
pub open spec fn opt_bytes_view(o: Option<Vec<u8>>) -> Option<Seq<u8>> {
    match o {
        None => None,
        Some(v) => Some(v@),
    }
}

impl View for StorageRecord {
    type V = RecordView;

    open spec fn view(&self) -> RecordView {
        RecordView {
            ca_key: opt_bytes_view(self.ca_key),
            ca_cert: opt_bytes_view(self.ca_cert),
            serial: opt_bytes_view(self.serial),
        }
    }
}

impl StorageRecord {
    /// A freshly initialized namespace: no key, no certificate, counter zero.
    pub fn new() -> (r: StorageRecord)
        ensures
            r@.ca_key is None,
            r@.ca_cert is None,
            counter_of(r@) == Some(0int),
    {
        let mut zero: Vec<u8> = Vec::new();
        zero.push(48);
        proof {
            assert(zero@ =~= seq![48u8]);
            let s = seq![48u8];
            assert(!decimal::is_space(s[0]) && !decimal::is_space(s.last()));
            assert(decimal::trim_front_spec(s) == s);
            assert(decimal::trim_back_spec(s) == s);
            let t = decimal::trim_spec(s);
            assert(t == s);
            assert(decimal::all_digits(t)) by {
                assert(decimal::is_digit(t[0]));
            }
            assert(t.drop_last() =~= Seq::<u8>::empty());
            assert(decimal::dec_value(Seq::<u8>::empty()) == 0);
            assert(decimal::dec_value(t) == 0);
        }
        let r = StorageRecord { ca_key: None, ca_cert: None, serial: Some(zero) };
        r
    }
}

/// The counter a record holds: zero when the field is absent, its decimal
/// value when the field holds a (possibly space-padded) decimal that fits in
/// 32 bits, and nothing when the field is unreadable.
pub open spec fn counter_of(r: RecordView) -> Option<int> {
    match r.serial {
        None => Some(0int),
        Some(b) => {
            let t = decimal::trim_spec(b);
            if t.len() > 0 && decimal::all_digits(t) && decimal::dec_value(t) <= u32::MAX {
                Some(decimal::dec_value(t))
            } else {
                None
            }
        },
    }
}

/// The allocator's transition: the record's counter becomes its successor,
/// canonically encoded, and the successor is handed out; nothing happens on
/// an unreadable or exhausted counter.
pub open spec fn alloc_spec(r: RecordView) -> Option<(u32, RecordView)> {
    match counter_of(r) {
        None => None,
        Some(c) => if 0 <= c < u32::MAX {
            Some(
                (
                    ((c + 1) as u32),
                    RecordView {
                        ca_key: r.ca_key,
                        ca_cert: r.ca_cert,
                        serial: Some(decimal::dec_digits((c + 1) as nat)),
                    },
                ),
            )
        } else {
            None
        },
    }
}

/// A readable counter is never negative.
pub proof fn lemma_counter_nonneg(r: RecordView)
    requires
        counter_of(r) is Some,
    ensures
        counter_of(r)->Some_0 >= 0,
{
    match r.serial {
        None => {},
        Some(b) => {
            decimal::lemma_dec_value_nonneg(decimal::trim_spec(b));
        },
    }
}

/// Reads the counter, persists its successor in the record, and returns the
/// successor: the read-increment-persist step of the allocator, to be run
/// under the caller's mutual exclusion.
pub fn allocate_next_serial(rec: &mut StorageRecord) -> (r: Result<u32, PkiError>)
    ensures
        final(rec)@.ca_key == old(rec)@.ca_key,
        final(rec)@.ca_cert == old(rec)@.ca_cert,
        (r is Ok <==> alloc_spec(old(rec)@) is Some),
        r is Ok ==> alloc_spec(old(rec)@) == Some((r->Ok_0, final(rec)@)),
        match r {
            Ok(n) => {
                &&& counter_of(old(rec)@) == Some(n - 1)
                &&& n >= 1
                &&& counter_of(final(rec)@) == Some(n as int)
                &&& final(rec)@.serial == Some(decimal::dec_digits(n as nat))
            },
            Err(e) => {
                &&& e == PkiError::Storage
                &&& final(rec)@ == old(rec)@
                &&& (counter_of(old(rec)@) is None || counter_of(old(rec)@) == Some(
                    u32::MAX as int,
                ))
            },
        },
{
    let current: u32 = match &rec.serial {
        None => 0,
        Some(b) => {
            let t = decimal::trim(b.as_slice());
            match decimal::parse_u32(t.as_slice()) {
                Some(v) => v,
                None => {
                    return Err(PkiError::Storage);
                },
            }
        },
    };
    if current == u32::MAX {
        return Err(PkiError::Storage);
    }
    let next = current + 1;
    let digits = decimal::format_u32(next);
    rec.serial = Some(digits);
    proof {
        decimal::lemma_dec_digits(next as nat);
        let d = decimal::dec_digits(next as nat);
        assert(forall|j: int| 0 <= j < d.len() ==> !decimal::is_space(d[j]));
        decimal::lemma_trim_clean(d);
    }
    Ok(next)
}

/// The two interchangeable storage backends.
#[derive(Clone, Copy, Debug, PartialEq, Eq, Structural)]
pub enum StoreBackend {
    /// Fields are files under a fixed directory.
    Local,
    /// Fields are entries of one named secret resource.
    KubernetesSecret,
}

/// Which backend to use and, for the remote one, the name of its resource.
#[derive(Clone, Debug, PartialEq, Eq)]
pub struct StoreConfig {
    pub backend: StoreBackend,
    pub secret_name: Vec<u8>,
}

/// Selects the backend from configuration.
pub fn create_store(local: bool, kubernetes_secret: Vec<u8>) -> (s: StoreConfig)
    ensures
        s.backend == (if local {
            StoreBackend::Local
        } else {
            StoreBackend::KubernetesSecret
        }),
        s.secret_name == kubernetes_secret,
{
    if local {
        StoreConfig { backend: StoreBackend::Local, secret_name: kubernetes_secret }
    } else {
        StoreConfig { backend: StoreBackend::KubernetesSecret, secret_name: kubernetes_secret }
    }
}

/// One named context of a cluster-config file.
#[derive(Clone, Debug, PartialEq, Eq)]
pub struct KubeContext {
    pub name: Vec<u8>,
    pub namespace: Option<Vec<u8>>,
}

/// What namespace resolution reads from a cluster-config file.
#[derive(Clone, Debug, PartialEq, Eq)]
pub struct KubeConfigInfo {
    pub current_context: Option<Vec<u8>>,
    pub contexts: Vec<KubeContext>,
}

/// The namespace of the first context with the given name, if any.
pub open spec fn context_lookup(cs: Seq<KubeContext>, name: Seq<u8>) -> Option<Option<Seq<u8>>>
    decreases cs.len(),
{
    if cs.len() == 0 {
        None
    } else if cs[0].name@ == name {
        Some(opt_bytes_view(cs[0].namespace))
    } else {
        context_lookup(cs.skip(1), name)
    }
}

/// The name of the active context; an unnamed one reads as the empty name.
pub open spec fn current_context_name(cfg: KubeConfigInfo) -> Seq<u8> {
    match cfg.current_context {
        Some(n) => n@,
        None => Seq::empty(),
    }
}

/// The namespace a cluster-config file contributes: the active context's
/// configured namespace, when that context exists and the namespace is
/// non-empty.
pub open spec fn config_namespace(cfg: KubeConfigInfo) -> Option<Seq<u8>> {
    match context_lookup(cfg.contexts@, current_context_name(cfg)) {
        Some(Some(ns)) => if ns.len() > 0 {
            Some(ns)
        } else {
            None
        },
        _ => None,
    }
}

/// `default`, the namespace of last resort.
pub open spec fn default_namespace() -> Seq<u8> {
    seq![100u8, 101u8, 102u8, 97u8, 117u8, 108u8, 116u8]
}

/// Namespace resolution in order: cluster-config file, then environment,
/// then the runtime-injected namespace file (trimmed), then `default`.
pub open spec fn resolve_namespace_spec(
    config: Option<KubeConfigInfo>,
    env_ns: Option<Seq<u8>>,
    file_ns: Option<Seq<u8>>,
) -> Seq<u8> {
    if config is Some && config_namespace(config->Some_0) is Some {
        config_namespace(config->Some_0)->Some_0
    } else if env_ns is Some {
        env_ns->Some_0
    } else if file_ns is Some {
        decimal::trim_spec(file_ns->Some_0)
    } else {
        default_namespace()
    }
}

/// Byte-for-byte equality of two byte strings.
pub fn bytes_eq(a: &[u8], b: &[u8]) -> (r: bool)
    ensures
        r <==> a@ == b@,
{
    if a.len() != b.len() {
        return false;
    }
    let mut j: usize = 0;
    while j < a.len()
        invariant
            j <= a@.len(),
            a@.len() == b@.len(),
            forall|k: int| 0 <= k < j ==> a@[k] == b@[k],
        decreases a@.len() - j,
    {
        if a[j] != b[j] {
            return false;
        }
        j = j + 1;
    }
    proof {
        assert(a@ =~= b@);
    }
    true
}

/// The namespace a cluster-config file contributes, if any.
fn config_namespace_x(cfg: &KubeConfigInfo) -> (r: Option<Vec<u8>>)
    ensures
        opt_bytes_view(r) == config_namespace(*cfg),
{
    let empty_name: Vec<u8> = Vec::new();
    let current: &Vec<u8> = match &cfg.current_context {
        Some(n) => n,
        None => &empty_name,
    };
    proof {
        assert(current@ == current_context_name(*cfg));
    }
    let n = cfg.contexts.len();
    let mut i: usize = 0;
    proof {
        assert(cfg.contexts@.skip(0) =~= cfg.contexts@);
    }
    while i < n
        invariant
            i <= n,
            n == cfg.contexts@.len(),
            current@ == current_context_name(*cfg),
            context_lookup(cfg.contexts@, current@) == context_lookup(
                cfg.contexts@.skip(i as int),
                current@,
            ),
        decreases n - i,
    {
        let ghost tail = cfg.contexts@.skip(i as int);
        proof {
            assert(tail[0] == cfg.contexts@[i as int]);
            assert(tail.skip(1) =~= cfg.contexts@.skip(i + 1));
        }
        if bytes_eq(cfg.contexts[i].name.as_slice(), current.as_slice()) {
            match &cfg.contexts[i].namespace {
                Some(ns) => {
                    if ns.len() > 0 {
                        return Some(ns.clone());
                    } else {
                        return None;
                    }
                },
                None => {
                    return None;
                },
            }
        }
        i = i + 1;
    }
    proof {
        assert(cfg.contexts@.skip(n as int) =~= Seq::<KubeContext>::empty());
    }
    None
}

/// Resolves the namespace for the remote backend, in the fixed order.
pub fn resolve_namespace(
    config: Option<&KubeConfigInfo>,
    env_ns: Option<Vec<u8>>,
    file_ns: Option<Vec<u8>>,
) -> (ns: Vec<u8>)
    ensures
        ns@ == resolve_namespace_spec(
            match config {
                Some(c) => Some(*c),
                None => None,
            },
            opt_bytes_view(env_ns),
            opt_bytes_view(file_ns),
        ),
{
    if let Some(cfg) = config {
        if let Some(ns) = config_namespace_x(cfg) {
            return ns;
        }
    }
    if let Some(e) = env_ns {
        return e;
    }
    if let Some(f) = file_ns {
        return decimal::trim(f.as_slice());
    }
    let mut d: Vec<u8> = Vec::new();
    d.push(100);
    d.push(101);
    d.push(102);
    d.push(97);
    d.push(117);
    d.push(108);
    d.push(116);
    proof {
        assert(d@ =~= default_namespace());
    }
    d
}

} // verus!
