use vstd::prelude::*;

verus! {

/// An external type that a handler's signature refers to.
pub struct TypeDependency {
    /// The name under which the type is exported.
    pub ts_name: String,
    /// The path of the module that exports it.
    pub exported_to: String,
}

/// The mathematical content of a `TypeDependency`.
pub struct DependencyModel {
    pub ts_name: Seq<char>,
    pub exported_to: Seq<char>,
}

impl View for TypeDependency {
    type V = DependencyModel;

    open spec fn view(&self) -> DependencyModel {
        DependencyModel { ts_name: self.ts_name@, exported_to: self.exported_to@ }
    }
}

/// What a handler states about itself: its name, its call signature and the
/// external types that the signature refers to.
pub struct HandlerType {
    pub name: String,
    pub signature: String,
    pub dependencies: Vec<TypeDependency>,
}

/// The mathematical content of a `HandlerType`.
pub struct HandlerModel {
    pub name: Seq<char>,
    pub signature: Seq<char>,
    pub dependencies: Seq<DependencyModel>,
}

impl View for HandlerType {
    type V = HandlerModel;

    open spec fn view(&self) -> HandlerModel {
        HandlerModel {
            name: self.name@,
            signature: self.signature@,
            dependencies: self.dependencies@.map_values(|d: TypeDependency| d@),
        }
    }
}

/// `items` joined with `sep` between each two neighbours.
pub open spec fn join(items: Seq<Seq<char>>, sep: Seq<char>) -> Seq<char>
    decreases items.len(),
{
    if items.len() == 0 {
        Seq::empty()
    } else if items.len() == 1 {
        items[0]
    } else {
        join(items.drop_last(), sep) + sep + items.last()
    }
}

/// The member `name: signature` of one handler.
pub open spec fn member_text(h: HandlerModel) -> Seq<char> {
    h.name + ": "@ + h.signature
}

/// The members of all handlers, in registration order.
pub open spec fn members(hs: Seq<HandlerModel>) -> Seq<Seq<char>> {
    hs.map_values(|h: HandlerModel| member_text(h))
}

/// The structural type `{ m1, m2, ... }` of a list of handlers.
pub open spec fn member_list_text(hs: Seq<HandlerModel>) -> Seq<char> {
    "{ "@ + join(members(hs), ", "@) + " }"@
}

/// The structural type of a router, nested one level under its namespace if
/// it has one.
pub open spec fn router_type_text(ns: Option<Seq<char>>, hs: Seq<HandlerModel>) -> Seq<char> {
    match ns {
        Some(n) => "{ "@ + n + ": "@ + member_list_text(hs) + " }"@,
        None => member_list_text(hs),
    }
}

/// Whether `p` ends with the declaration-file suffix `.ts`.
pub open spec fn ends_with_ts(p: Seq<char>) -> bool {
    p.len() >= 3 && p[p.len() - 3] == '.' && p[p.len() - 2] == 't' && p[p.len() - 1] == 's'
}

/// `p` with every trailing `.ts` removed.
pub open spec fn strip_ts(p: Seq<char>) -> Seq<char>
    decreases p.len(),
{
    if ends_with_ts(p) {
        strip_ts(p.subrange(0, p.len() - 3))
    } else {
        p
    }
}

/// The import statement for one dependency.
pub open spec fn import_text(d: DependencyModel) -> Seq<char> {
    "import type { "@ + d.ts_name + " } from \"./"@ + strip_ts(d.exported_to) + "\";"@
}

/// The dependencies of all handlers, flattened in registration order.
pub open spec fn all_dependencies(hs: Seq<HandlerModel>) -> Seq<DependencyModel>
    decreases hs.len(),
{
    if hs.len() == 0 {
        Seq::empty()
    } else {
        all_dependencies(hs.drop_last()) + hs.last().dependencies
    }
}

/// `s` with every item after its first occurrence left out.
pub open spec fn dedup(s: Seq<Seq<char>>) -> Seq<Seq<char>>
    decreases s.len(),
{
    if s.len() == 0 {
        Seq::empty()
    } else if dedup(s.drop_last()).contains(s.last()) {
        dedup(s.drop_last())
    } else {
        dedup(s.drop_last()).push(s.last())
    }
}

/// The import statements of a router's handlers, each one once.
pub open spec fn imports(hs: Seq<HandlerModel>) -> Seq<Seq<char>> {
    dedup(all_dependencies(hs).map_values(|d: DependencyModel| import_text(d)))
}

/// The whole type description: the import statements, then the declaration
/// of the router's type, one per line with a newline only between lines.
pub open spec fn description_text(ns: Option<Seq<char>>, hs: Seq<HandlerModel>) -> Seq<char> {
    join(imports(hs).push(declaration_text(ns, hs)), "\n"@)
}

/// The line that declares the router's type.
pub open spec fn declaration_text(ns: Option<Seq<char>>, hs: Seq<HandlerModel>) -> Seq<char> {
    "type Router = "@ + router_type_text(ns, hs) + ";"@
}


/// The views of a vector of strings.
pub open spec fn strings_view(v: Seq<String>) -> Seq<Seq<char>> {
    v.map_values(|s: String| s@)
}

/// Joins `items` with `sep` between each two neighbours.
pub fn join_strings(items: &Vec<String>, sep: &str) -> (r: String)
    ensures
        r@ == join(strings_view(items@), sep@),
{
    let mut r = String::new();
    let mut i: usize = 0;
    while i < items.len()
        invariant
            i <= items.len(),
            r@ == join(strings_view(items@.subrange(0, i as int)), sep@),
        decreases items.len() - i,
    {
        if i > 0 {
            r.append(sep);
        }
        r.append(items[i].as_str());
        proof {
            let prefix = strings_view(items@.subrange(0, i as int + 1));
            assert(prefix.drop_last() =~= strings_view(items@.subrange(0, i as int)));
            assert(prefix.last() == items@[i as int]@);
            if i == 0 {
                assert(r@ =~= prefix[0]);
            } else {
                assert(r@ =~= join(prefix.drop_last(), sep@) + sep@ + prefix.last());
            }
        }
        i = i + 1;
    }
    assert(items@.subrange(0, items.len() as int) =~= items@);
    r
}

impl TypeDependency {
    /// The import statement for this dependency.
    pub fn import_statement(&self) -> (r: String)
        ensures
            r@ == import_text(self@),
    {
        let mut r = String::from_str("import type { ");
        r.append(self.ts_name.as_str());
        r.append(" } from \"./");
        let path = strip_ts_suffix(self.exported_to.as_str());
        r.append(path);
        r.append("\";");
        r
    }
}

impl HandlerType {
    /// The member `name: signature` of this handler.
    pub fn member(&self) -> (r: String)
        ensures
            r@ == member_text(self@),
    {
        let mut r = self.name.clone();
        r.append(": ");
        r.append(self.signature.as_str());
        r
    }
}

/// `p` with every trailing `.ts` removed.
pub fn strip_ts_suffix(p: &str) -> (r: &str)
    ensures
        r@ == strip_ts(p@),
{
    let mut r = p;
    let mut n = r.unicode_len();
    while n >= 3 && r.get_char(n - 3) == '.' && r.get_char(n - 2) == 't' && r.get_char(n - 1) == 's'
        invariant
            n == r@.len(),
            strip_ts(r@) == strip_ts(p@),
        decreases n,
    {
        r = r.substring_char(0, n - 3);
        n = n - 3;
    }
    r
}

/// The view of an optional namespace.
pub open spec fn namespace_view(ns: Option<String>) -> Option<Seq<char>> {
    match ns {
        Some(n) => Some(n@),
        None => None,
    }
}

/// The views of a vector of handler types.
pub open spec fn handlers_view(v: Seq<HandlerType>) -> Seq<HandlerModel> {
    v.map_values(|h: HandlerType| h@)
}

/// The import statements of all dependencies of `hs`, in registration order,
/// repeats included.
pub fn import_statements(hs: &Vec<HandlerType>) -> (r: Vec<String>)
    ensures
        strings_view(r@) == all_dependencies(handlers_view(hs@)).map_values(
            |d: DependencyModel| import_text(d),
        ),
{
    let mut r: Vec<String> = Vec::new();
    let mut i: usize = 0;
    while i < hs.len()
        invariant
            i <= hs.len(),
            strings_view(r@) == all_dependencies(handlers_view(hs@.subrange(0, i as int))).map_values(
                |d: DependencyModel| import_text(d),
            ),
        decreases hs.len() - i,
    {
        let deps = &hs[i].dependencies;
        let ghost before = strings_view(r@);
        let mut j: usize = 0;
        while j < deps.len()
            invariant
                i < hs.len(),
                deps == &hs@[i as int].dependencies,
                j <= deps.len(),
                strings_view(r@) == before + deps@.subrange(0, j as int).map_values(
                    |d: TypeDependency| import_text(d@),
                ),
            decreases deps.len() - j,
        {
            let line = deps[j].import_statement();
            let ghost prev = r@;
            r.push(line);
            assert(strings_view(r@) =~= strings_view(prev).push(import_text(deps@[j as int]@)));
            proof {
                let upto = deps@.subrange(0, j as int + 1).map_values(
                    |d: TypeDependency| import_text(d@),
                );
                assert(upto =~= deps@.subrange(0, j as int).map_values(
                    |d: TypeDependency| import_text(d@),
                ).push(import_text(deps@[j as int]@)));
                assert(strings_view(r@) =~= before + upto);
            }
            j = j + 1;
        }
        proof {
            let hv = handlers_view(hs@.subrange(0, i as int + 1));
            assert(hv.drop_last() =~= handlers_view(hs@.subrange(0, i as int)));
            assert(deps@.subrange(0, j as int) =~= deps@);
            let all = all_dependencies(hv);
            assert(all == all_dependencies(hv.drop_last()) + hv.last().dependencies);
            assert(strings_view(r@) =~= all.map_values(|d: DependencyModel| import_text(d)));
        }
        i = i + 1;
    }
    assert(hs@.subrange(0, hs.len() as int) =~= hs@);
    r
}

/// Whether `v` holds a string equal to `s`.
pub fn contains_string(v: &Vec<String>, s: &String) -> (r: bool)
    ensures
        r == strings_view(v@).contains(s@),
{
    let mut i: usize = 0;
    while i < v.len()
        invariant
            i <= v.len(),
            forall|k: int| 0 <= k < i ==> v@[k]@ != s@,
        decreases v.len() - i,
    {
        if v[i] == *s {
            assert(strings_view(v@)[i as int] == s@);
            return true;
        }
        i = i + 1;
    }
    assert forall|k: int| 0 <= k < strings_view(v@).len() implies strings_view(v@)[k] != s@ by {
        assert(v@[k]@ != s@);
    }
    false
}

/// `items` with every string after its first occurrence left out.
pub fn dedup_strings(items: Vec<String>) -> (r: Vec<String>)
    ensures
        strings_view(r@) == dedup(strings_view(items@)),
{
    let mut r: Vec<String> = Vec::new();
    let mut i: usize = 0;
    while i < items.len()
        invariant
            i <= items.len(),
            strings_view(r@) == dedup(strings_view(items@.subrange(0, i as int))),
        decreases items.len() - i,
    {
        let ghost prefix = strings_view(items@.subrange(0, i as int + 1));
        assert(prefix.drop_last() =~= strings_view(items@.subrange(0, i as int)));
        if !contains_string(&r, &items[i]) {
            r.push(items[i].clone());
            assert(strings_view(r@) =~= dedup(prefix));
        }
        i = i + 1;
    }
    assert(items@.subrange(0, items.len() as int) =~= items@);
    r
}

/// The structural type `{ m1, m2, ... }` of a list of handlers.
pub fn member_list(hs: &Vec<HandlerType>) -> (r: String)
    ensures
        r@ == member_list_text(handlers_view(hs@)),
{
    let mut items: Vec<String> = Vec::new();
    let mut i: usize = 0;
    while i < hs.len()
        invariant
            i <= hs.len(),
            strings_view(items@) == members(handlers_view(hs@.subrange(0, i as int))),
        decreases hs.len() - i,
    {
        items.push(hs[i].member());
        proof {
            let hv = handlers_view(hs@.subrange(0, i as int + 1));
            assert(hv =~= handlers_view(hs@.subrange(0, i as int)).push(hs@[i as int]@));
            assert(members(hv) =~= members(handlers_view(hs@.subrange(0, i as int))).push(
                member_text(hs@[i as int]@),
            ));
            assert(strings_view(items@) =~= members(hv));
        }
        i = i + 1;
    }
    assert(hs@.subrange(0, hs.len() as int) =~= hs@);
    let joined = join_strings(&items, ", ");
    let mut r = String::from_str("{ ");
    r.append(joined.as_str());
    r.append(" }");
    r
}

/// The structural type of a router with namespace `ns` and handlers `hs`.
pub fn router_type(ns: &Option<String>, hs: &Vec<HandlerType>) -> (r: String)
    ensures
        r@ == router_type_text(namespace_view(*ns), handlers_view(hs@)),
{
    let inner = member_list(hs);
    match ns {
        Some(n) => {
            let mut r = String::from_str("{ ");
            r.append(n.as_str());
            r.append(": ");
            r.append(inner.as_str());
            r.append(" }");
            r
        },
        None => inner,
    }
}

/// The whole type description of a router with namespace `ns` and handlers
/// `hs`: the import statements, one per line and each once, then the
/// declaration of the router's type.
pub fn describe(ns: &Option<String>, hs: &Vec<HandlerType>) -> (r: String)
    ensures
        r@ == description_text(namespace_view(*ns), handlers_view(hs@)),
{
    let mut lines = dedup_strings(import_statements(hs));
    let mut decl = String::from_str("type Router = ");
    let t = router_type(ns, hs);
    decl.append(t.as_str());
    decl.append(";");
    let ghost before = lines@;
    lines.push(decl);
    assert(strings_view(lines@) =~= strings_view(before).push(declaration_text(namespace_view(*ns), handlers_view(hs@))));
    join_strings(&lines, "\n")
}

/// Registration order is kept: the members are those of the handlers in the
/// order they were registered, and registering one more handler adds its
/// member at the end of the member list, after those already there.
pub proof fn lemma_members_keep_registration_order(hs: Seq<HandlerModel>, h: HandlerModel)
    ensures
        members(hs).len() == hs.len(),
        forall|i: int| 0 <= i < hs.len() ==> #[trigger] members(hs)[i] == member_text(hs[i]),
        members(hs.push(h)) == members(hs).push(member_text(h)),
        hs.len() == 0 ==> member_list_text(hs.push(h)) == "{ "@ + member_text(h) + " }"@,
        hs.len() > 0 ==> member_list_text(hs.push(h)) == "{ "@ + join(members(hs), ", "@) + ", "@
            + member_text(h) + " }"@,
{
    let m = members(hs.push(h));
    assert(m =~= members(hs).push(member_text(h)));
    assert(m.drop_last() =~= members(hs));
    if hs.len() == 0 {
        assert(join(m, ", "@) == member_text(h));
    } else {
        assert(join(m, ", "@) == join(members(hs), ", "@) + ", "@ + member_text(h));
    }
}

/// An item is in `s` with `x` pushed exactly when it is `x` or is in `s`.
pub proof fn lemma_push_contains(s: Seq<Seq<char>>, x: Seq<char>, y: Seq<char>)
    ensures
        s.push(x).contains(y) <==> (s.contains(y) || y == x),
{
    let e = s.push(x);
    if e.contains(y) {
        let k = choose|k: int| 0 <= k < e.len() && e[k] == y;
        if k < s.len() {
            assert(s[k] == y);
        }
    }
    if s.contains(y) {
        let k = choose|k: int| 0 <= k < s.len() && s[k] == y;
        assert(e[k] == y);
    }
    if y == x {
        assert(e[s.len() as int] == y);
    }
}

/// What `dedup` keeps: every item of `s`, each once, and nothing else.
pub proof fn lemma_dedup(s: Seq<Seq<char>>)
    ensures
        dedup(s).no_duplicates(),
        forall|x: Seq<char>| #[trigger] dedup(s).contains(x) <==> s.contains(x),
    decreases s.len(),
{
    if s.len() > 0 {
        let p = s.drop_last();
        lemma_dedup(p);
        assert(s =~= p.push(s.last()));
        let d = dedup(p);
        assert forall|x: Seq<char>| #[trigger] dedup(s).contains(x) <==> s.contains(x) by {
            lemma_push_contains(p, s.last(), x);
            assert(d.contains(x) <==> p.contains(x));
            if d.contains(s.last()) {
                assert(dedup(s) == d);
            } else {
                assert(dedup(s) == d.push(s.last()));
                lemma_push_contains(d, s.last(), x);
            }
        }
    }
}

/// Each import statement appears once: the imports of a router hold the
/// statement of every dependency of its handlers, however many handlers
/// share it, no statement twice, and no other statement.
pub proof fn lemma_imports_once(hs: Seq<HandlerModel>)
    ensures
        imports(hs).no_duplicates(),
        forall|i: int|
            0 <= i < all_dependencies(hs).len() ==> imports(hs).contains(
                import_text(#[trigger] all_dependencies(hs)[i]),
            ),
        forall|line: Seq<char>|
            #[trigger] imports(hs).contains(line) ==> exists|i: int|
                0 <= i < all_dependencies(hs).len() && import_text(all_dependencies(hs)[i]) == line,
{
    let lines = all_dependencies(hs).map_values(|d: DependencyModel| import_text(d));
    lemma_dedup(lines);
    assert forall|i: int| 0 <= i < all_dependencies(hs).len() implies imports(hs).contains(
        import_text(#[trigger] all_dependencies(hs)[i]),
    ) by {
        assert(lines[i] == import_text(all_dependencies(hs)[i]));
    }
    assert forall|line: Seq<char>| #[trigger] imports(hs).contains(line) implies exists|i: int|
        0 <= i < all_dependencies(hs).len() && import_text(all_dependencies(hs)[i]) == line by {
        let k = choose|k: int| 0 <= k < lines.len() && lines[k] == line;
        assert(import_text(all_dependencies(hs)[k]) == line);
    }
}

} // verus!
