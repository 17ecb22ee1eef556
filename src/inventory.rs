use vstd::prelude::*;

verus! {

#[verifier::external_type_specification]
#[verifier::external_body]
pub struct ExRegex(regex::Regex);

#[verifier::external_type_specification]
#[verifier::external_body]
pub struct ExRegexError(regex::Error);

/// Whether the regular expression `pattern` matches somewhere in `text`
/// (unanchored, case-sensitive search).
pub uninterp spec fn pattern_matches(pattern: Seq<char>, text: Seq<char>) -> bool;

/// Whether `regex::Regex::new` accepts `pattern`: valid syntax, within the
/// default size limit.
pub uninterp spec fn regex_compiles(pattern: Seq<char>) -> bool;

/// Relies on `regex::Regex::new`: compiles `pattern`, or reports that it is
/// invalid or too large; which of the two depends on the pattern alone.
#[verifier::external_body]
fn compile_regex(pattern: &str) -> (r: Result<regex::Regex, regex::Error>)
    ensures
        r is Ok <==> regex_compiles(pattern@),
{
    regex::Regex::new(pattern)
}

/// How a host is reached.
#[derive(Clone, Debug, PartialEq, Eq, PartialOrd, Ord, Hash)]
pub enum Auth {
    Password(String),
    PrivateKey { key_data: String, key_pass: Option<String> },
    PrivateKeyFile { key_file_path: Option<String>, key_pass: Option<String> },
    /// No credential: the platform's own ssh client is used.
    LocalSsh,
}

/// One host of the inventory.
#[derive(Clone, Debug, PartialEq, Eq, PartialOrd, Ord, Hash)]
pub struct Member {
    pub hostname: String,
    pub ip: String,
    pub port: u16,
    pub user: String,
    pub auth: Auth,
    pub valid: bool,
}

/// A named group of hosts.
#[derive(Clone, Debug)]
pub struct Group {
    pub name: String,
    pub members: Vec<Member>,
    pub valid: bool,
}

/// The whole inventory.
#[derive(Clone, Debug)]
pub struct Server {
    pub groups: Vec<Group>,
}

/// A resolved target host, tagged with the group it was found in.
#[derive(Clone, Debug)]
pub struct Info {
    hostname: String,
    ip: String,
    port: u16,
    username: String,
    auth: Auth,
    groupname: String,
}

/// The hosts that a pattern resolved to, group after group.
#[derive(Clone, Debug)]
pub struct ClientInfo {
    info: Vec<Info>,
}

/// A compiled host pattern together with its source text.
#[derive(Debug)]
pub struct HostPattern {
    source: String,
    compiled: regex::Regex,
}

/// A host pattern that is not a valid regular expression.
#[derive(Clone, Debug, PartialEq, Eq)]
pub enum PatternError {
    Invalid { pattern: String },
}

impl HostPattern {
    pub closed spec fn source_view(&self) -> Seq<char> {
        self.source@
    }

    pub fn new(pattern: &str) -> (r: Result<HostPattern, PatternError>)
        ensures
            r is Ok <==> regex_compiles(pattern@),
            r matches Ok(p) ==> p.source_view() == pattern@,
            r matches Err(e) ==> e == (PatternError::Invalid { pattern: e->pattern }) && e->pattern@ == pattern@,
    {
        match compile_regex(pattern) {
            Ok(compiled) => Ok(HostPattern { source: pattern.to_owned(), compiled }),
            Err(_) => Err(PatternError::Invalid { pattern: pattern.to_owned() }),
        }
    }

    pub fn source(&self) -> (r: &str)
        ensures
            r@ == self.source_view(),
    {
        self.source.as_str()
    }
}

/// Relies on `regex::Regex::is_match` of the regex that `HostPattern::new`
/// compiled from `p`'s source: whether it matches anywhere in `text`.
#[verifier::external_body]
fn is_match(p: &HostPattern, text: &str) -> (r: bool)
    ensures
        r == pattern_matches(p.source_view(), text@),
{
    p.compiled.is_match(text)
}

/// Which names a pattern matched in one group: the group's own name, and
/// for each member its hostname or its ip.
#[derive(Clone, Debug)]
pub struct GroupHits {
    pub name: bool,
    pub members: Vec<bool>,
}

/// What a pattern matched in one group, as plain values.
pub struct HitsModel {
    pub name: bool,
    pub members: Seq<bool>,
}

impl GroupHits {
    pub open spec fn model(&self) -> HitsModel {
        HitsModel { name: self.name, members: self.members@ }
    }
}

/// The matches of each group.
pub open spec fn hits_models(h: Seq<GroupHits>) -> Seq<HitsModel> {
    h.map_values(|x: GroupHits| x.model())
}

/// What a pattern matches in group `g`.
pub open spec fn pattern_hits(g: Group, pattern: Seq<char>) -> HitsModel {
    HitsModel {
        name: pattern_matches(pattern, g.name@),
        members: Seq::new(
            g.members@.len(),
            |m: int| pattern_matches(pattern, g.members@[m].hostname@) || pattern_matches(pattern, g.members@[m].ip@),
        ),
    }
}

/// What `pattern` matches in each group.
pub open spec fn all_pattern_hits(groups: Seq<Group>, pattern: Seq<char>) -> Seq<HitsModel> {
    groups.map_values(|g: Group| pattern_hits(g, pattern))
}

/// Member `m` of an enabled group is taken when it is enabled and either the
/// group's name or its own hostname or ip matched.
pub open spec fn selected(g: Group, h: HitsModel, m: int) -> bool {
    g.valid && g.members@[m].valid && (h.name || h.members[m])
}

/// The taken members among the first `n` of `g`, in order.
pub open spec fn selected_members(g: Group, h: HitsModel, n: int) -> Seq<Member>
    decreases n,
{
    if n <= 0 {
        Seq::empty()
    } else if selected(g, h, n - 1) {
        selected_members(g, h, n - 1).push(g.members@[n - 1])
    } else {
        selected_members(g, h, n - 1)
    }
}

/// The taken members of `g`, in order.
pub open spec fn group_selection(g: Group, h: HitsModel) -> Seq<Member> {
    selected_members(g, h, g.members@.len() as int)
}

/// The resolved host for member `m` of the group called `groupname`.
pub closed spec fn info_of(m: Member, groupname: String) -> Info {
    Info { hostname: m.hostname, ip: m.ip, port: m.port, username: m.user, auth: m.auth, groupname }
}

/// The resolved hosts for members `ms` of the group called `groupname`.
pub open spec fn infos_of(ms: Seq<Member>, groupname: String) -> Seq<Info> {
    ms.map_values(|m: Member| info_of(m, groupname))
}

/// The hosts of the first `n` groups, group after group.
pub open spec fn resolve_upto(groups: Seq<Group>, hits: Seq<HitsModel>, n: int) -> Seq<Info>
    decreases n,
{
    if n <= 0 {
        Seq::empty()
    } else {
        resolve_upto(groups, hits, n - 1) + infos_of(group_selection(groups[n - 1], hits[n - 1]), groups[n - 1].name)
    }
}

/// The hosts taken by `hits`, group after group.
pub open spec fn resolve(groups: Seq<Group>, hits: Seq<HitsModel>) -> Seq<Info> {
    resolve_upto(groups, hits, groups.len() as int)
}

/// The hosts that `pattern` resolves to in `groups`.
pub open spec fn resolve_pattern(groups: Seq<Group>, pattern: Seq<char>) -> Seq<Info> {
    resolve(groups, all_pattern_hits(groups, pattern))
}

/// One hit per member of every group.
pub open spec fn hits_fit(groups: Seq<Group>, hits: Seq<HitsModel>) -> bool {
    &&& hits.len() == groups.len()
    &&& forall|i: int| 0 <= i < groups.len() ==> (#[trigger] hits[i]).members.len() == groups[i].members@.len()
}

pub(crate) fn copy_opt(s: &Option<String>) -> (r: Option<String>)
    ensures
        r == *s,
{
    match s {
        Some(x) => Some(x.clone()),
        None => None,
    }
}

impl Auth {
    fn copied(&self) -> (r: Auth)
        ensures
            r == *self,
    {
        match self {
            Auth::Password(p) => Auth::Password(p.clone()),
            Auth::PrivateKey { key_data, key_pass } => Auth::PrivateKey { key_data: key_data.clone(), key_pass: copy_opt(key_pass) },
            Auth::PrivateKeyFile { key_file_path, key_pass } => Auth::PrivateKeyFile {
                key_file_path: copy_opt(key_file_path),
                key_pass: copy_opt(key_pass),
            },
            Auth::LocalSsh => Auth::LocalSsh,
        }
    }
}

impl Member {
    fn copied(&self) -> (r: Member)
        ensures
            r == *self,
    {
        Member {
            hostname: self.hostname.clone(),
            ip: self.ip.clone(),
            port: self.port,
            user: self.user.clone(),
            auth: self.auth.copied(),
            valid: self.valid,
        }
    }

    pub fn valid(&self) -> (r: bool)
        ensures
            r == self.valid,
    {
        self.valid
    }

    /// This member, when it is enabled and `pattern` matches its hostname or its ip.
    pub fn find(&self, pattern: &HostPattern) -> (r: Option<Member>)
        ensures
            r is Some <==> self.valid && (pattern_matches(pattern.source_view(), self.hostname@)
                || pattern_matches(pattern.source_view(), self.ip@)),
            r matches Some(m) ==> m == *self,
    {
        if self.valid && (is_match(pattern, self.hostname.as_str()) || is_match(pattern, self.ip.as_str())) {
            Some(self.copied())
        } else {
            None
        }
    }
}

impl Info {
    /// A copy equal to this one.
    pub fn clone_exact(&self) -> (r: Info)
        ensures
            r == *self,
    {
        self.copied()
    }

    fn copied(&self) -> (r: Info)
        ensures
            r == *self,
    {
        Info {
            hostname: self.hostname.clone(),
            ip: self.ip.clone(),
            port: self.port,
            username: self.username.clone(),
            auth: self.auth.copied(),
            groupname: self.groupname.clone(),
        }
    }
}


impl Group {
    /// What `pattern` matches in this group.
    pub fn hits(&self, pattern: &HostPattern) -> (r: GroupHits)
        ensures
            r.model() == pattern_hits(*self, pattern.source_view()),
    {
        let name = is_match(pattern, self.name.as_str());
        let mut members: Vec<bool> = Vec::new();
        let mut i: usize = 0;
        while i < self.members.len()
            invariant
                i <= self.members@.len(),
                members@ == pattern_hits(*self, pattern.source_view()).members.take(i as int),
            decreases self.members.len() - i,
        {
            let m = &self.members[i];
            let hit = is_match(pattern, m.hostname.as_str()) || is_match(pattern, m.ip.as_str());
            members.push(hit);
            assert(members@ =~= pattern_hits(*self, pattern.source_view()).members.take(i + 1));
            i = i + 1;
        }
        assert(members@ =~= pattern_hits(*self, pattern.source_view()).members);
        GroupHits { name, members }
    }

    /// The group cut down to its taken members, or `None` when none is taken
    /// (always `None` for a disabled group).
    pub fn select(&self, hits: &GroupHits) -> (r: Option<Group>)
        requires
            hits.members@.len() == self.members@.len(),
        ensures
            group_selection(*self, hits.model()).len() == 0 ==> r is None,
            group_selection(*self, hits.model()).len() > 0 ==> (r matches Some(g) && g.name == self.name
                && g.members@ == group_selection(*self, hits.model()) && g.valid),
    {
        let ghost h = hits.model();
        let mut members: Vec<Member> = Vec::new();
        if self.valid {
            let mut i: usize = 0;
            while i < self.members.len()
                invariant
                    self.valid,
                    h == hits.model(),
                    hits.members@.len() == self.members@.len(),
                    i <= self.members@.len(),
                    members@ == selected_members(*self, h, i as int),
                decreases self.members.len() - i,
            {
                if self.members[i].valid && (hits.name || hits.members[i]) {
                    members.push(self.members[i].copied());
                }
                i = i + 1;
            }
        } else {
            proof {
                lemma_disabled_selects_none(*self, h, self.members@.len() as int);
            }
        }
        if members.len() == 0 {
            None
        } else {
            Some(Group { name: self.name.clone(), members, valid: true })
        }
    }

    /// The group cut down to the members that `pattern` selects.
    pub fn find(&self, pattern: &HostPattern) -> (r: Option<Group>)
        ensures
            group_selection(*self, pattern_hits(*self, pattern.source_view())).len() == 0 ==> r is None,
            group_selection(*self, pattern_hits(*self, pattern.source_view())).len() > 0 ==> (r matches Some(g)
                && g.name == self.name && g.valid
                && g.members@ == group_selection(*self, pattern_hits(*self, pattern.source_view()))),
    {
        let hits = self.hits(pattern);
        self.select(&hits)
    }
}

proof fn lemma_disabled_selects_none(g: Group, h: HitsModel, n: int)
    requires
        !g.valid,
    ensures
        selected_members(g, h, n) == Seq::<Member>::empty(),
    decreases n,
{
    if n > 0 {
        lemma_disabled_selects_none(g, h, n - 1);
    }
}

impl Info {
    pub closed spec fn hostname_view(&self) -> Seq<char> {
        self.hostname@
    }

    pub closed spec fn ip_view(&self) -> Seq<char> {
        self.ip@
    }

    pub closed spec fn port_view(&self) -> u16 {
        self.port
    }

    pub closed spec fn username_view(&self) -> Seq<char> {
        self.username@
    }

    pub closed spec fn auth_view(&self) -> Auth {
        self.auth
    }

    pub closed spec fn groupname_view(&self) -> Seq<char> {
        self.groupname@
    }

    /// `hostname_ip`, the name under which a host's results are reported.
    pub open spec fn identity(&self) -> Seq<char> {
        self.hostname_view() + seq!['_'] + self.ip_view()
    }

    pub fn hostname_ip(&self) -> (r: String)
        ensures
            r@ == self.identity(),
    {
        let mut r = self.hostname.clone();
        let sep = "_";
        proof {
            reveal_strlit("_");
        }
        r.append(sep);
        r.append(self.ip.as_str());
        r
    }

    pub fn hostname(&self) -> (r: &str)
        ensures
            r@ == self.hostname_view(),
    {
        self.hostname.as_str()
    }

    pub fn ip(&self) -> (r: &str)
        ensures
            r@ == self.ip_view(),
    {
        self.ip.as_str()
    }

    pub fn port(&self) -> (r: u16)
        ensures
            r == self.port_view(),
    {
        self.port
    }

    pub fn username(&self) -> (r: &str)
        ensures
            r@ == self.username_view(),
    {
        self.username.as_str()
    }

    pub fn auth(&self) -> (r: &Auth)
        ensures
            *r == self.auth_view(),
    {
        &self.auth
    }

    pub fn groupname(&self) -> (r: &str)
        ensures
            r@ == self.groupname_view(),
    {
        self.groupname.as_str()
    }
}

/// What a resolved host holds: the member's fields and its group's name.
pub proof fn lemma_info_of(m: Member, groupname: String)
    ensures
        info_of(m, groupname).hostname_view() == m.hostname@,
        info_of(m, groupname).ip_view() == m.ip@,
        info_of(m, groupname).port_view() == m.port,
        info_of(m, groupname).username_view() == m.user@,
        info_of(m, groupname).auth_view() == m.auth,
        info_of(m, groupname).groupname_view() == groupname@,
{
}

impl ClientInfo {
    pub closed spec fn info_view(&self) -> Seq<Info> {
        self.info@
    }

    /// The members of `groups`, group after group, each tagged with its group's name.
    pub fn new(groups: Vec<Group>) -> (r: ClientInfo)
        ensures
            r.info_view() == flatten_groups(groups@, groups@.len() as int),
    {
        let mut client_info = ClientInfo { info: Vec::new() };
        let mut i: usize = 0;
        while i < groups.len()
            invariant
                i <= groups@.len(),
                client_info.info_view() == flatten_groups(groups@, i as int),
            decreases groups.len() - i,
        {
            client_info.append(&groups[i]);
            i = i + 1;
        }
        client_info
    }

    /// Adds the members of `group`, tagged with its name.
    pub fn append(&mut self, group: &Group)
        ensures
            final(self).info_view() == old(self).info_view() + infos_of(group.members@, group.name),
    {
        let ghost start = self.info@;
        let mut i: usize = 0;
        while i < group.members.len()
            invariant
                i <= group.members@.len(),
                self.info@ == start + infos_of(group.members@.take(i as int), group.name),
            decreases group.members.len() - i,
        {
            let m = &group.members[i];
            let info = Info {
                hostname: m.hostname.clone(),
                ip: m.ip.clone(),
                port: m.port,
                username: m.user.clone(),
                auth: m.auth.copied(),
                groupname: group.name.clone(),
            };
            assert(info == info_of(group.members@[i as int], group.name));
            self.info.push(info);
            assert(group.members@.take(i + 1) =~= group.members@.take(i as int).push(group.members@[i as int]));
            assert(self.info@ =~= start + infos_of(group.members@.take(i + 1), group.name));
            i = i + 1;
        }
        assert(group.members@.take(i as int) =~= group.members@);
    }

    /// A copy of the resolved hosts.
    pub fn clone_info(&self) -> (r: Vec<Info>)
        ensures
            r@ == self.info_view(),
    {
        let mut r: Vec<Info> = Vec::new();
        let mut i: usize = 0;
        while i < self.info.len()
            invariant
                i <= self.info@.len(),
                r@ == self.info@.take(i as int),
            decreases self.info.len() - i,
        {
            r.push(self.info[i].copied());
            assert(r@ =~= self.info@.take(i + 1));
            i = i + 1;
        }
        assert(r@ =~= self.info@);
        r
    }
}

/// The members of the first `n` groups, each tagged with its group's name.
pub open spec fn flatten_groups(groups: Seq<Group>, n: int) -> Seq<Info>
    decreases n,
{
    if n <= 0 {
        Seq::empty()
    } else {
        flatten_groups(groups, n - 1) + infos_of(groups[n - 1].members@, groups[n - 1].name)
    }
}


proof fn lemma_flatten_prefix(a: Seq<Group>, b: Seq<Group>, n: int)
    requires
        0 <= n <= a.len(),
        n <= b.len(),
        forall|k: int| 0 <= k < n ==> a[k] == b[k],
    ensures
        flatten_groups(a, n) == flatten_groups(b, n),
    decreases n,
{
    if n > 0 {
        lemma_flatten_prefix(a, b, n - 1);
    }
}

impl Server {
    /// What `pattern` matches in each group.
    pub fn hits(&self, pattern: &HostPattern) -> (r: Vec<GroupHits>)
        ensures
            hits_models(r@) == all_pattern_hits(self.groups@, pattern.source_view()),
    {
        let mut r: Vec<GroupHits> = Vec::new();
        let mut i: usize = 0;
        while i < self.groups.len()
            invariant
                i <= self.groups@.len(),
                hits_models(r@) == all_pattern_hits(self.groups@, pattern.source_view()).take(i as int),
            decreases self.groups.len() - i,
        {
            let h = self.groups[i].hits(pattern);
            assert(all_pattern_hits(self.groups@, pattern.source_view())[i as int]
                == pattern_hits(self.groups@[i as int], pattern.source_view()));
            let ghost old_r = r@;
            r.push(h);
            assert(hits_models(r@) =~= hits_models(old_r).push(h.model()));
            assert(hits_models(r@) =~= all_pattern_hits(self.groups@, pattern.source_view()).take(i + 1));
            i = i + 1;
        }
        assert(all_pattern_hits(self.groups@, pattern.source_view()).take(i as int)
            =~= all_pattern_hits(self.groups@, pattern.source_view()));
        r
    }

    /// The inventory cut down to the taken members of each group; groups
    /// left without members are dropped, and `None` when no host is left.
    pub fn select(&self, hits: &Vec<GroupHits>) -> (r: Option<Server>)
        requires
            hits_fit(self.groups@, hits_models(hits@)),
        ensures
            resolve(self.groups@, hits_models(hits@)).len() == 0 ==> r is None,
            r matches Some(s) ==> flatten_groups(s.groups@, s.groups@.len() as int) == resolve(self.groups@, hits_models(hits@)),
            r matches Some(s) ==> forall|k: int| 0 <= k < s.groups@.len() ==> (#[trigger] s.groups@[k]).valid,
            resolve(self.groups@, hits_models(hits@)).len() > 0 ==> r is Some,
    {
        let ghost hm = hits_models(hits@);
        let mut groups: Vec<Group> = Vec::new();
        let mut i: usize = 0;
        while i < self.groups.len()
            invariant
                i <= self.groups@.len(),
                hm == hits_models(hits@),
                hits_fit(self.groups@, hm),
                flatten_groups(groups@, groups@.len() as int) == resolve_upto(self.groups@, hm, i as int),
                forall|k: int| 0 <= k < groups@.len() ==> (#[trigger] groups@[k]).valid,
                groups@.len() > 0 ==> flatten_groups(groups@, groups@.len() as int).len() > 0,
            decreases self.groups.len() - i,
        {
            assert(hm[i as int] == hits@[i as int].model());
            match self.groups[i].select(&hits[i]) {
                Some(g) => {
                    let ghost before = groups@;
                    groups.push(g);
                    proof {
                        lemma_flatten_prefix(before, groups@, before.len() as int);
                        assert(infos_of(g.members@, g.name).len() > 0);
                    }
                },
                None => {
                    assert(infos_of(group_selection(self.groups@[i as int], hm[i as int]), self.groups@[i as int].name)
                        =~= Seq::<Info>::empty());
                },
            }
            assert(resolve_upto(self.groups@, hm, i + 1) =~= resolve_upto(self.groups@, hm, i as int)
                + infos_of(group_selection(self.groups@[i as int], hm[i as int]), self.groups@[i as int].name));
            i = i + 1;
        }
        if groups.len() == 0 {
            None
        } else {
            Some(Server { groups })
        }
    }

    /// The inventory cut down to the hosts that `pattern` selects.
    pub fn find(&self, pattern: &HostPattern) -> (r: Option<Server>)
        ensures
            resolve_pattern(self.groups@, pattern.source_view()).len() == 0 <==> r is None,
            r matches Some(s) ==> flatten_groups(s.groups@, s.groups@.len() as int)
                == resolve_pattern(self.groups@, pattern.source_view()),
    {
        let hits = self.hits(pattern);
        self.select(&hits)
    }

    /// The hosts taken by `hits`, or `None` when there is none.
    pub fn client_info_with(&self, hits: &Vec<GroupHits>) -> (r: Option<ClientInfo>)
        requires
            hits_fit(self.groups@, hits_models(hits@)),
        ensures
            resolve(self.groups@, hits_models(hits@)).len() == 0 <==> r is None,
            r matches Some(c) ==> c.info_view() == resolve(self.groups@, hits_models(hits@)),
    {
        match self.select(hits) {
            Some(s) => Some(ClientInfo::new(s.groups)),
            None => None,
        }
    }

    /// The hosts that `pattern` resolves to, or `None` when there is none.
    pub fn client_info(&self, pattern: &HostPattern) -> (r: Option<ClientInfo>)
        ensures
            resolve_pattern(self.groups@, pattern.source_view()).len() == 0 <==> r is None,
            r matches Some(c) ==> c.info_view() == resolve_pattern(self.groups@, pattern.source_view()),
    {
        let hits = self.hits(pattern);
        self.client_info_with(&hits)
    }
}


proof fn lemma_selection_has(g: Group, h: HitsModel, n: int, mi: int)
    requires
        0 <= mi < n <= g.members@.len(),
        selected(g, h, mi),
    ensures
        selected_members(g, h, n).contains(g.members@[mi]),
    decreases n,
{
    if mi < n - 1 {
        lemma_selection_has(g, h, n - 1, mi);
        let s1 = selected_members(g, h, n - 1);
        let k = choose|k: int| 0 <= k < s1.len() && s1[k] == g.members@[mi];
        if selected(g, h, n - 1) {
            assert(selected_members(g, h, n)[k] == g.members@[mi]);
        }
    } else {
        let s = selected_members(g, h, n);
        assert(s[s.len() - 1] == g.members@[mi]);
    }
}

proof fn lemma_selection_from(g: Group, h: HitsModel, n: int, k: int)
    requires
        0 <= n <= g.members@.len(),
        0 <= k < selected_members(g, h, n).len(),
    ensures
        exists|mi: int| 0 <= mi < n && selected(g, h, mi) && selected_members(g, h, n)[k] == g.members@[mi],
    decreases n,
{
    if n > 0 {
        if selected(g, h, n - 1) && k == selected_members(g, h, n).len() - 1 {
            assert(selected_members(g, h, n)[k] == g.members@[n - 1]);
        } else {
            lemma_selection_from(g, h, n - 1, k);
            let s1 = selected_members(g, h, n - 1);
            let mi = choose|mi: int| 0 <= mi < n - 1 && selected(g, h, mi) && s1[k] == g.members@[mi];
            assert(selected_members(g, h, n)[k] == g.members@[mi]);
        }
    }
}

proof fn lemma_resolve_has(groups: Seq<Group>, hits: Seq<HitsModel>, n: int, gi: int, mi: int)
    requires
        hits_fit(groups, hits),
        0 <= gi < n <= groups.len(),
        0 <= mi < groups[gi].members@.len(),
        selected(groups[gi], hits[gi], mi),
    ensures
        resolve_upto(groups, hits, n).contains(info_of(groups[gi].members@[mi], groups[gi].name)),
    decreases n,
{
    let x = info_of(groups[gi].members@[mi], groups[gi].name);
    let prev = resolve_upto(groups, hits, n - 1);
    let seg = infos_of(group_selection(groups[n - 1], hits[n - 1]), groups[n - 1].name);
    assert(resolve_upto(groups, hits, n) == prev + seg);
    if gi < n - 1 {
        lemma_resolve_has(groups, hits, n - 1, gi, mi);
        let k = choose|k: int| 0 <= k < prev.len() && prev[k] == x;
        assert((prev + seg)[k] == x);
    } else {
        let g = groups[gi];
        lemma_selection_has(g, hits[gi], g.members@.len() as int, mi);
        let sel = group_selection(g, hits[gi]);
        let j = choose|j: int| 0 <= j < sel.len() && sel[j] == g.members@[mi];
        assert(seg[j] == x);
        assert((prev + seg)[prev.len() + j] == x);
    }
}

proof fn lemma_resolve_from(groups: Seq<Group>, hits: Seq<HitsModel>, n: int, k: int)
    requires
        hits_fit(groups, hits),
        0 <= n <= groups.len(),
        0 <= k < resolve_upto(groups, hits, n).len(),
    ensures
        exists|gi: int, mi: int| 0 <= gi < n && 0 <= mi < groups[gi].members@.len()
            && selected(groups[gi], hits[gi], mi)
            && resolve_upto(groups, hits, n)[k] == info_of(groups[gi].members@[mi], groups[gi].name),
    decreases n,
{
    let prev = resolve_upto(groups, hits, n - 1);
    let sel = group_selection(groups[n - 1], hits[n - 1]);
    let seg = infos_of(sel, groups[n - 1].name);
    assert(resolve_upto(groups, hits, n) == prev + seg);
    if k < prev.len() {
        lemma_resolve_from(groups, hits, n - 1, k);
        let (gi, mi) = choose|gi: int, mi: int| 0 <= gi < n - 1 && 0 <= mi < groups[gi].members@.len()
            && selected(groups[gi], hits[gi], mi)
            && prev[k] == info_of(groups[gi].members@[mi], groups[gi].name);
        assert((prev + seg)[k] == prev[k]);
    } else {
        let j = k - prev.len();
        lemma_selection_from(groups[n - 1], hits[n - 1], groups[n - 1].members@.len() as int, j);
        let gl = groups[n - 1];
        let hl = hits[n - 1];
        let mi = choose|mi: int| 0 <= mi < gl.members@.len() && #[trigger] selected(gl, hl, mi)
            && sel[j] == gl.members@[mi];
        assert((prev + seg)[k] == seg[j]);
    }
}

/// Every enabled member of an enabled group is resolved when the pattern
/// matches the group's name, its hostname or its ip; and everything resolved
/// is such a member, tagged with its group: nothing disabled is ever taken.
pub proof fn lemma_resolution_complete(groups: Seq<Group>, pattern: Seq<char>)
    ensures
        forall|gi: int, mi: int| 0 <= gi < groups.len() && 0 <= mi < groups[gi].members@.len()
            && groups[gi].valid && (#[trigger] groups[gi].members@[mi]).valid
            && (pattern_matches(pattern, groups[gi].name@)
                || pattern_matches(pattern, groups[gi].members@[mi].hostname@)
                || pattern_matches(pattern, groups[gi].members@[mi].ip@))
            ==> resolve_pattern(groups, pattern).contains(info_of(groups[gi].members@[mi], groups[gi].name)),
        forall|k: int| 0 <= k < resolve_pattern(groups, pattern).len() ==> exists|gi: int, mi: int|
            0 <= gi < groups.len() && 0 <= mi < groups[gi].members@.len()
            && groups[gi].valid && groups[gi].members@[mi].valid
            && (pattern_matches(pattern, groups[gi].name@)
                || pattern_matches(pattern, groups[gi].members@[mi].hostname@)
                || pattern_matches(pattern, groups[gi].members@[mi].ip@))
            && #[trigger] resolve_pattern(groups, pattern)[k] == info_of(groups[gi].members@[mi], groups[gi].name),
{
    let hits = all_pattern_hits(groups, pattern);
    assert(hits_fit(groups, hits));
    assert forall|gi: int, mi: int| 0 <= gi < groups.len() && 0 <= mi < groups[gi].members@.len()
        && groups[gi].valid && (#[trigger] groups[gi].members@[mi]).valid
        && (pattern_matches(pattern, groups[gi].name@)
            || pattern_matches(pattern, groups[gi].members@[mi].hostname@)
            || pattern_matches(pattern, groups[gi].members@[mi].ip@))
        implies resolve_pattern(groups, pattern).contains(info_of(groups[gi].members@[mi], groups[gi].name)) by {
        assert(hits[gi] == pattern_hits(groups[gi], pattern));
        lemma_resolve_has(groups, hits, groups.len() as int, gi, mi);
    }
    assert forall|k: int| 0 <= k < resolve_pattern(groups, pattern).len() implies exists|gi: int, mi: int|
        0 <= gi < groups.len() && 0 <= mi < groups[gi].members@.len()
        && groups[gi].valid && groups[gi].members@[mi].valid
        && (pattern_matches(pattern, groups[gi].name@)
            || pattern_matches(pattern, groups[gi].members@[mi].hostname@)
            || pattern_matches(pattern, groups[gi].members@[mi].ip@))
        && #[trigger] resolve_pattern(groups, pattern)[k] == info_of(groups[gi].members@[mi], groups[gi].name) by {
        lemma_resolve_from(groups, hits, groups.len() as int, k);
        let (gi, mi) = choose|gi: int, mi: int| 0 <= gi < groups.len() && 0 <= mi < groups[gi].members@.len()
            && selected(groups[gi], hits[gi], mi)
            && resolve_upto(groups, hits, groups.len() as int)[k] == info_of(groups[gi].members@[mi], groups[gi].name);
        assert(hits[gi] == pattern_hits(groups[gi], pattern));
    }
}

/// Whether member `mi` of group `g` qualifies for `pattern`: both enabled,
/// and the pattern matches the group's name, the member's hostname or its ip.
pub open spec fn qualifies(g: Group, mi: int, pattern: Seq<char>) -> bool {
    g.valid && g.members@[mi].valid && (pattern_matches(pattern, g.name@)
        || pattern_matches(pattern, g.members@[mi].hostname@) || pattern_matches(pattern, g.members@[mi].ip@))
}

/// The number of qualifying members among the first `m` of `g`.
pub open spec fn count_qualifying_members(g: Group, pattern: Seq<char>, m: int) -> nat
    decreases m,
{
    if m <= 0 {
        0
    } else {
        count_qualifying_members(g, pattern, m - 1) + if qualifies(g, m - 1, pattern) { 1nat } else { 0nat }
    }
}

/// The number of qualifying memberships in the first `n` groups.
pub open spec fn count_qualifying(groups: Seq<Group>, pattern: Seq<char>, n: int) -> nat
    decreases n,
{
    if n <= 0 {
        0
    } else {
        count_qualifying(groups, pattern, n - 1)
            + count_qualifying_members(groups[n - 1], pattern, groups[n - 1].members@.len() as int)
    }
}

proof fn lemma_selection_count(g: Group, pattern: Seq<char>, m: int)
    requires
        m <= g.members@.len(),
    ensures
        selected_members(g, pattern_hits(g, pattern), m).len() == count_qualifying_members(g, pattern, m),
    decreases m,
{
    if m > 0 {
        lemma_selection_count(g, pattern, m - 1);
        assert(selected(g, pattern_hits(g, pattern), m - 1) == qualifies(g, m - 1, pattern));
    }
}

proof fn lemma_resolve_count(groups: Seq<Group>, pattern: Seq<char>, n: int)
    requires
        n <= groups.len(),
    ensures
        resolve_upto(groups, all_pattern_hits(groups, pattern), n).len() == count_qualifying(groups, pattern, n),
    decreases n,
{
    if n > 0 {
        lemma_resolve_count(groups, pattern, n - 1);
        assert(all_pattern_hits(groups, pattern)[n - 1] == pattern_hits(groups[n - 1], pattern));
        lemma_selection_count(groups[n - 1], pattern, groups[n - 1].members@.len() as int);
    }
}

/// Each qualifying membership is resolved once: there are exactly as many
/// resolved hosts as qualifying (group, member) memberships, so a host that
/// qualifies in two groups is resolved twice, once with each group's name.
pub proof fn lemma_resolution_once_per_membership(groups: Seq<Group>, pattern: Seq<char>)
    ensures
        resolve_pattern(groups, pattern).len() == count_qualifying(groups, pattern, groups.len() as int),
{
    lemma_resolve_count(groups, pattern, groups.len() as int);
}

/// Every host resolved (what `Server::client_info` returns) is an enabled
/// member of an enabled group of the inventory, with that member's fields and
/// that group's name: a disabled member, or any member of a disabled group,
/// never appears.
pub proof fn lemma_nothing_disabled_resolved(groups: Seq<Group>, pattern: Seq<char>)
    ensures
        forall|k: int| #![trigger resolve_pattern(groups, pattern)[k]] 0 <= k < resolve_pattern(groups, pattern).len() ==> exists|gi: int, mi: int|
            0 <= gi < groups.len() && 0 <= mi < groups[gi].members@.len()
            && groups[gi].valid && (#[trigger] groups[gi].members@[mi]).valid
            && resolve_pattern(groups, pattern)[k].hostname_view() == groups[gi].members@[mi].hostname@
            && resolve_pattern(groups, pattern)[k].ip_view() == groups[gi].members@[mi].ip@
            && resolve_pattern(groups, pattern)[k].port_view() == groups[gi].members@[mi].port
            && resolve_pattern(groups, pattern)[k].username_view() == groups[gi].members@[mi].user@
            && resolve_pattern(groups, pattern)[k].auth_view() == groups[gi].members@[mi].auth
            && resolve_pattern(groups, pattern)[k].groupname_view() == groups[gi].name@,
{
    lemma_resolution_complete(groups, pattern);
    assert forall|k: int| #![trigger resolve_pattern(groups, pattern)[k]] 0 <= k < resolve_pattern(groups, pattern).len() implies exists|gi: int, mi: int|
        0 <= gi < groups.len() && 0 <= mi < groups[gi].members@.len()
        && groups[gi].valid && (#[trigger] groups[gi].members@[mi]).valid
        && resolve_pattern(groups, pattern)[k].hostname_view() == groups[gi].members@[mi].hostname@
        && resolve_pattern(groups, pattern)[k].ip_view() == groups[gi].members@[mi].ip@
        && resolve_pattern(groups, pattern)[k].port_view() == groups[gi].members@[mi].port
        && resolve_pattern(groups, pattern)[k].username_view() == groups[gi].members@[mi].user@
        && resolve_pattern(groups, pattern)[k].auth_view() == groups[gi].members@[mi].auth
        && resolve_pattern(groups, pattern)[k].groupname_view() == groups[gi].name@ by {
        let x = resolve_pattern(groups, pattern)[k];
        let (gi, mi) = choose|gi: int, mi: int| 0 <= gi < groups.len() && 0 <= mi < groups[gi].members@.len()
            && groups[gi].valid && groups[gi].members@[mi].valid
            && (pattern_matches(pattern, groups[gi].name@)
                || pattern_matches(pattern, groups[gi].members@[mi].hostname@)
                || pattern_matches(pattern, groups[gi].members@[mi].ip@))
            && x == info_of(groups[gi].members@[mi], groups[gi].name);
        lemma_info_of(groups[gi].members@[mi], groups[gi].name);
    }
}

/// When the pattern matches an enabled group's name, every enabled member of
/// that group is resolved, whatever its hostname and ip.
pub proof fn lemma_group_match_takes_all(groups: Seq<Group>, pattern: Seq<char>, gi: int)
    requires
        0 <= gi < groups.len(),
        groups[gi].valid,
        pattern_matches(pattern, groups[gi].name@),
    ensures
        forall|mi: int| 0 <= mi < groups[gi].members@.len() && (#[trigger] groups[gi].members@[mi]).valid
            ==> resolve_pattern(groups, pattern).contains(info_of(groups[gi].members@[mi], groups[gi].name)),
{
    lemma_resolution_complete(groups, pattern);
    assert forall|mi: int| 0 <= mi < groups[gi].members@.len() && (#[trigger] groups[gi].members@[mi]).valid
        implies resolve_pattern(groups, pattern).contains(info_of(groups[gi].members@[mi], groups[gi].name)) by {
        assert(groups[gi].members@[mi].valid);
    }
}


impl Default for Member {
    fn default() -> (r: Self)
        ensures
            r.hostname@.len() == 0,
            r.ip@.len() == 0,
            r.port == 22,
            r.user@ == "cx"@,
            r.auth matches Auth::Password(p) && p@ == "chaxun"@,
            r.valid,
    {
        Member {
            hostname: String::new(),
            ip: String::new(),
            port: 22,
            user: "cx".to_owned(),
            auth: Auth::Password("chaxun".to_owned()),
            valid: true,
        }
    }
}

impl Default for Group {
    fn default() -> (r: Self)
        ensures
            r.name@.len() == 0,
            r.members@.len() == 1,
            r.valid,
    {
        Group { name: String::new(), members: vec![Member::default()], valid: true }
    }
}

impl Default for Server {
    fn default() -> (r: Self)
        ensures
            r.groups@.len() == 1,
    {
        Server { groups: vec![Group::default()] }
    }
}

} // verus!
