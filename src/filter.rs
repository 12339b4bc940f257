use vstd::prelude::*;
use vstd::string::*;

verus! {

/// An IP address in numeric form: four octets, or eight 16-bit groups, most
/// significant first.
#[derive(Clone, Copy, Debug, PartialEq, Eq, Structural)]
pub enum IpKey {
    V4(u32),
    V6(u128),
}

/// The lowercase form of a string.
pub uninterp spec fn lower_of(s: Seq<char>) -> Seq<char>;

/// Relies on `str::to_lowercase`: the result depends on the characters alone.
#[verifier::external_body]
fn lowercase(s: &str) -> (r: String)
    ensures
        r@ == lower_of(s@),
{
    s.to_lowercase()
}

/// `host` is `entry` itself, or ends with `.` followed by `entry`.
pub open spec fn domain_matches(host: Seq<char>, entry: Seq<char>) -> bool {
    host == entry || (host.len() > entry.len() && host[host.len() - entry.len() - 1] == '.'
        && host.subrange(host.len() - entry.len(), host.len() as int) == entry)
}

/// The verdict on a host: an IP literal is blocked exactly when its address is
/// listed; any other host when its lowercase form matches a listed domain.
pub open spec fn blocked(
    domains: Set<Seq<char>>,
    ips: Set<IpKey>,
    host: Seq<char>,
    host_ip: Option<IpKey>,
) -> bool {
    match host_ip {
        Some(k) => ips.contains(k),
        None => exists|d: Seq<char>| #[trigger]
            domains.contains(d) && domain_matches(lower_of(host), d),
    }
}

/// A set of blocked domain suffixes and blocked IP addresses.
#[derive(Debug)]
pub struct Filter {
    blocked_domains: Vec<String>,
    blocked_ips: Vec<IpKey>,
}

impl View for Filter {
    /// The blocked domains, lowercase, and the blocked addresses.
    type V = (Set<Seq<char>>, Set<IpKey>);

    closed spec fn view(&self) -> (Set<Seq<char>>, Set<IpKey>) {
        (self.blocked_domains@.map_values(|d: String| d@).to_set(), self.blocked_ips@.to_set())
    }
}

/// Whether `host`, from position `at`, holds exactly `entry`.
fn tail_equals(host: &str, entry: &str, at: usize) -> (r: bool)
    requires
        at + entry@.len() == host@.len(),
    ensures
        r == (host@.subrange(at as int, host@.len() as int) == entry@),
{
    let n = entry.unicode_len();
    let hn = host.unicode_len();
    let mut j: usize = 0;
    while j < n
        invariant
            n == entry@.len(),
            hn == host@.len(),
            at + n == host@.len(),
            j <= n,
            forall|i: int| 0 <= i < j ==> host@[at + i] == entry@[i],
        decreases n - j,
    {
        if host.get_char(at + j) != entry.get_char(j) {
            assert(host@.subrange(at as int, host@.len() as int)[j as int] != entry@[j as int]);
            return false;
        }
        j += 1;
    }
    assert(host@.subrange(at as int, host@.len() as int) =~= entry@);
    true
}

/// Whether `host` is `entry` or ends with `.` followed by `entry`.
fn matches_domain(host: &str, entry: &str) -> (r: bool)
    ensures
        r == domain_matches(host@, entry@),
{
    let hn = host.unicode_len();
    let en = entry.unicode_len();
    if hn == en {
        let same = tail_equals(host, entry, 0);
        assert(host@.subrange(0, hn as int) =~= host@);
        same
    } else if hn > en {
        host.get_char(hn - en - 1) == '.' && tail_equals(host, entry, hn - en)
    } else {
        false
    }
}

impl Filter {
    /// A filter that blocks nothing.
    pub fn new() -> (r: Filter)
        ensures
            r@.0 == Set::<Seq<char>>::empty(),
            r@.1 == Set::<IpKey>::empty(),
    {
        let r = Filter { blocked_domains: Vec::new(), blocked_ips: Vec::new() };
        assert(r@.0 =~= Set::<Seq<char>>::empty());
        assert(r@.1 =~= Set::<IpKey>::empty());
        r
    }

    /// Adds one entry of a block list: an empty entry or one that starts with `#`
    /// is skipped; an entry that reads as the address `entry_ip` blocks that
    /// address; any other blocks its lowercase form as a domain suffix.
    pub fn add_entry(&mut self, entry: &str, entry_ip: Option<IpKey>)
        ensures
            if entry@.len() == 0 || entry@[0] == '#' {
                final(self)@ == old(self)@
            } else {
                match entry_ip {
                    Some(k) => final(self)@ == (old(self)@.0, old(self)@.1.insert(k)),
                    None => final(self)@ == (old(self)@.0.insert(lower_of(entry@)), old(self)@.1),
                }
            },
    {
        if entry.unicode_len() == 0 || entry.get_char(0) == '#' {
            return;
        }
        match entry_ip {
            Some(k) => {
                self.blocked_ips.push(k);
                proof {
                    old(self).blocked_ips@.lemma_push_to_set_commute(k);
                }
                assert(self@.1 =~= old(self)@.1.insert(k));
                assert(self@.0 =~= old(self)@.0);
            },
            None => {
                let d = lowercase(entry);
                self.blocked_domains.push(d);
                let ghost before = old(self).blocked_domains@.map_values(|d: String| d@);
                assert(self.blocked_domains@.map_values(|d: String| d@) =~= before.push(
                    lower_of(entry@),
                ));
                proof {
                    before.lemma_push_to_set_commute(lower_of(entry@));
                }
                assert(self@.0 =~= old(self)@.0.insert(lower_of(entry@)));
                assert(self@.1 =~= old(self)@.1);
            },
        }
    }

    /// Whether requests to `host` are refused. `host_ip` is the address that `host`
    /// reads as, where it is an IP literal.
    pub fn is_blocked(&self, host: &str, host_ip: Option<IpKey>) -> (r: bool)
        ensures
            r == blocked(self@.0, self@.1, host@, host_ip),
    {
        match host_ip {
            Some(k) => {
                let mut i: usize = 0;
                while i < self.blocked_ips.len()
                    invariant
                        i <= self.blocked_ips@.len(),
                        host_ip == Some(k),
                        forall|j: int| 0 <= j < i ==> self.blocked_ips@[j] != k,
                    decreases self.blocked_ips@.len() - i,
                {
                    if self.blocked_ips[i] == k {
                        assert(self.blocked_ips@.contains(k));
                        assert(self@.1.contains(k));
                        return true;
                    }
                    i += 1;
                }
                assert(!self.blocked_ips@.contains(k));
                false
            },
            None => {
                let lower = lowercase(host);
                self.matches_any_domain(lower.as_str())
            },
        }
    }

    /// Whether `lower_host`, already in lowercase, is a blocked domain or ends with
    /// `.` followed by one.
    pub fn matches_any_domain(&self, lower_host: &str) -> (r: bool)
        ensures
            r == exists|d: Seq<char>| #[trigger]
                self@.0.contains(d) && domain_matches(lower_host@, d),
    {
        let ghost ds = self.blocked_domains@.map_values(|d: String| d@);
        let mut i: usize = 0;
        while i < self.blocked_domains.len()
            invariant
                i <= self.blocked_domains@.len(),
                ds == self.blocked_domains@.map_values(|d: String| d@),
                forall|j: int| 0 <= j < i ==> !domain_matches(lower_host@, #[trigger] ds[j]),
            decreases self.blocked_domains@.len() - i,
        {
            if matches_domain(lower_host, self.blocked_domains[i].as_str()) {
                assert(ds[i as int] == self.blocked_domains@[i as int]@);
                assert(ds.contains(ds[i as int]));
                assert(self@.0.contains(ds[i as int]));
                return true;
            }
            i += 1;
        }
        assert forall|d: Seq<char>| #[trigger] ds.to_set().contains(d) implies !domain_matches(
            lower_host@,
            d,
        ) by {
            let j = ds.index_of(d);
            assert(ds[j] == d);
        }
        false
    }
}

/// For an IP-literal host the verdict depends on the blocked addresses alone, never on
/// the blocked domains.
pub proof fn lemma_ip_hosts_ignore_domains(
    domains1: Set<Seq<char>>,
    domains2: Set<Seq<char>>,
    ips: Set<IpKey>,
    host: Seq<char>,
    k: IpKey,
)
    ensures
        blocked(domains1, ips, host, Some(k)) == blocked(domains2, ips, host, Some(k)),
        blocked(domains1, ips, host, Some(k)) == ips.contains(k),
{
}

/// A domain entry blocks itself and every name that ends in `.` and the entry, and
/// blocks a longer name only where a `.` stands right before the entry.
pub proof fn lemma_suffix_on_label_boundary(label: Seq<char>, entry: Seq<char>, host: Seq<char>)
    ensures
        domain_matches(entry, entry),
        domain_matches(label + seq!['.'] + entry, entry),
        domain_matches(host, entry) && host != entry ==> host.len() > entry.len() && host[host.len()
            - entry.len() - 1] == '.',
{
    let h = label + seq!['.'] + entry;
    assert(h.subrange(h.len() - entry.len(), h.len() as int) =~= entry);
    assert(h[h.len() - entry.len() - 1] == '.');
}

} // verus!
