//! The `setup` commands: listing the components of the setup catalog, and
//! reading the tools a repository asks for.

use vstd::prelude::*;
use crate::error::AppError;
use crate::text::{owned, str_eq, string_views};

verus! {

/// Environment variable information.
#[derive(Debug, Clone)]
pub struct EnvVarInfo {
    pub name: String,
    pub description: String,
    pub default: Option<String>,
}

/// A component of the setup catalog.
#[derive(Debug, Clone)]
pub struct SetupComponent {
    pub name: String,
    pub summary: String,
    pub dependencies: Vec<String>,
    pub env: Vec<EnvVarInfo>,
    pub script_content: String,
}

/// Summary information for a component.
#[derive(Debug, Clone)]
pub struct ComponentSummary {
    pub name: String,
    pub summary: String,
}

/// Detailed information for a component.
#[derive(Debug, Clone)]
pub struct ComponentDetail {
    pub name: String,
    pub summary: String,
    pub dependencies: Vec<String>,
    pub env_vars: Vec<EnvVarInfo>,
    pub script_content: String,
}

pub open spec fn env_view(e: EnvVarInfo) -> (Seq<char>, Seq<char>, Option<Seq<char>>) {
    (e.name@, e.description@, crate::text::opt_string_view(e.default))
}

pub open spec fn summary_view(c: SetupComponent) -> (Seq<char>, Seq<char>) {
    (c.name@, c.summary@)
}

/// The names of the catalog's components, in catalog order.
pub open spec fn component_names(catalog: Seq<SetupComponent>) -> Seq<Seq<char>> {
    catalog.map_values(|c: SetupComponent| c.name@)
}

/// The first component of the catalog with the given name.
pub open spec fn find_component(catalog: Seq<SetupComponent>, name: Seq<char>) -> Option<SetupComponent>
    decreases catalog.len(),
{
    if catalog.len() == 0 {
        None
    } else if catalog[0].name@ == name {
        Some(catalog[0])
    } else {
        find_component(catalog.drop_first(), name)
    }
}

fn copy_strings(v: &Vec<String>) -> (r: Vec<String>)
    ensures
        r@ == v@,
{
    let mut out: Vec<String> = Vec::new();
    let mut k: usize = 0;
    while k < v.len()
        invariant
            k <= v.len(),
            out@ == v@.subrange(0, k as int),
        decreases v.len() - k,
    {
        out.push(v[k].clone());
        assert(out@ =~= v@.subrange(0, k + 1));
        k = k + 1;
    }
    assert(v@.subrange(0, v@.len() as int) =~= v@);
    out
}

fn copy_env(e: &EnvVarInfo) -> (r: EnvVarInfo)
    ensures
        env_view(r) == env_view(*e),
{
    EnvVarInfo {
        name: e.name.clone(),
        description: e.description.clone(),
        default: match &e.default {
            Some(d) => Some(d.clone()),
            None => None,
        },
    }
}

/// Execute the setup list command: a summary of each component of the
/// catalog, in catalog order.
pub fn execute(catalog: &Vec<SetupComponent>) -> (r: Vec<ComponentSummary>)
    ensures
        r@.map_values(|s: ComponentSummary| (s.name@, s.summary@)) == catalog@.map_values(
            |c: SetupComponent| summary_view(c),
        ),
{
    let mut out: Vec<ComponentSummary> = Vec::new();
    let mut k: usize = 0;
    while k < catalog.len()
        invariant
            k <= catalog.len(),
            out@.map_values(|s: ComponentSummary| (s.name@, s.summary@)) == catalog@.subrange(
                0,
                k as int,
            ).map_values(|c: SetupComponent| summary_view(c)),
        decreases catalog.len() - k,
    {
        let c = &catalog[k];
        let ghost before = out@;
        out.push(ComponentSummary { name: c.name.clone(), summary: c.summary.clone() });
        assert(out@.map_values(|s: ComponentSummary| (s.name@, s.summary@)) =~= before.map_values(
            |s: ComponentSummary| (s.name@, s.summary@),
        ).push(summary_view(catalog@[k as int])));
        assert(catalog@.subrange(0, k + 1) =~= catalog@.subrange(0, k as int).push(catalog@[k as int]));
        assert(out@.map_values(|s: ComponentSummary| (s.name@, s.summary@)) =~= catalog@.subrange(
            0,
            k + 1,
        ).map_values(|c: SetupComponent| summary_view(c)));
        k = k + 1;
    }
    assert(catalog@.subrange(0, catalog@.len() as int) =~= catalog@);
    out
}

/// Execute the setup list --detail command: the details of the named
/// component, or `ComponentNotFound` with the names of all components.
pub fn execute_detail(catalog: &Vec<SetupComponent>, component_name: &str) -> (r: Result<
    ComponentDetail,
    AppError,
>)
    ensures
        match find_component(catalog@, component_name@) {
            Some(c) => r matches Ok(d) && d.name@ == c.name@ && d.summary@ == c.summary@
                && d.dependencies@ == c.dependencies@ && d.env_vars@.map_values(
                |e: EnvVarInfo| env_view(e),
            ) == c.env@.map_values(|e: EnvVarInfo| env_view(e)) && d.script_content@
                == c.script_content@,
            None => r matches Err(AppError::ComponentNotFound { name, available }) && name@
                == component_name@ && string_views(available@) == component_names(catalog@),
        },
{
    let mut k: usize = 0;
    assert(catalog@.subrange(0, catalog@.len() as int) =~= catalog@);
    while k < catalog.len()
        invariant
            k <= catalog.len(),
            find_component(catalog@, component_name@) == find_component(
                catalog@.subrange(k as int, catalog@.len() as int),
                component_name@,
            ),
        decreases catalog.len() - k,
    {
        let ghost rest = catalog@.subrange(k as int, catalog@.len() as int);
        assert(rest.drop_first() =~= catalog@.subrange(k + 1, catalog@.len() as int));
        assert(rest[0] == catalog@[k as int]);
        let c = &catalog[k];
        if str_eq(c.name.as_str(), component_name) {
            let mut env_vars: Vec<EnvVarInfo> = Vec::new();
            let mut j: usize = 0;
            while j < c.env.len()
                invariant
                    j <= c.env.len(),
                    env_vars@.map_values(|e: EnvVarInfo| env_view(e)) == c.env@.subrange(
                        0,
                        j as int,
                    ).map_values(|e: EnvVarInfo| env_view(e)),
                decreases c.env.len() - j,
            {
                let ghost before = env_vars@;
                env_vars.push(copy_env(&c.env[j]));
                assert(env_vars@.map_values(|e: EnvVarInfo| env_view(e)) =~= before.map_values(
                    |e: EnvVarInfo| env_view(e),
                ).push(env_view(c.env@[j as int])));
                assert(c.env@.subrange(0, j + 1) =~= c.env@.subrange(0, j as int).push(c.env@[j as int]));
                assert(env_vars@.map_values(|e: EnvVarInfo| env_view(e)) =~= c.env@.subrange(
                    0,
                    j + 1,
                ).map_values(|e: EnvVarInfo| env_view(e)));
                j = j + 1;
            }
            assert(c.env@.subrange(0, c.env@.len() as int) =~= c.env@);
            return Ok(
                ComponentDetail {
                    name: c.name.clone(),
                    summary: c.summary.clone(),
                    dependencies: copy_strings(&c.dependencies),
                    env_vars,
                    script_content: c.script_content.clone(),
                },
            );
        }
        k = k + 1;
    }
    let mut available: Vec<String> = Vec::new();
    let mut j: usize = 0;
    while j < catalog.len()
        invariant
            j <= catalog.len(),
            string_views(available@) == component_names(catalog@.subrange(0, j as int)),
        decreases catalog.len() - j,
    {
        let ghost before = available@;
        available.push(catalog[j].name.clone());
        assert(string_views(available@) =~= string_views(before).push(catalog@[j as int].name@));
        assert(catalog@.subrange(0, j + 1) =~= catalog@.subrange(0, j as int).push(catalog@[j as int]));
        assert(string_views(available@) =~= component_names(catalog@.subrange(0, j + 1)));
        j = j + 1;
    }
    assert(catalog@.subrange(0, catalog@.len() as int) =~= catalog@);
    Err(AppError::ComponentNotFound { name: owned(component_name), available })
}

// ---- tools.yml ----

/// Read the tools a repository's setup asks for. `setup_exists` tells
/// whether `.jlo/setup` exists, and `tools` is what `.jlo/setup/tools.yml`
/// reads into (its `tools` list, or the parser's error), `None` when the
/// file does not exist. The list must not be empty.
pub fn load_setup_tools(setup_exists: bool, tools: Option<Result<Vec<String>, String>>) -> (r: Result<
    Vec<String>,
    AppError,
>)
    ensures
        !setup_exists ==> r == Err::<Vec<String>, AppError>(AppError::SetupNotInitialized),
        setup_exists && tools is None ==> r == Err::<Vec<String>, AppError>(AppError::SetupConfigMissing),
        setup_exists ==> (tools matches Some(t) ==> match t {
            Err(msg) => r matches Err(AppError::ParseError { what, details }) && what@ == "tools.yml"@
                && details@ == msg@,
            Ok(ts) => if ts@.len() == 0 {
                r matches Err(AppError::Validation(m)) && m@
                    == "No tools specified in tools.yml. Add tools to the 'tools' list."@
            } else {
                r matches Ok(v) && string_views(v@) == string_views(ts@)
            },
        }),
{
    if !setup_exists {
        return Err(AppError::SetupNotInitialized);
    }
    let parsed = match tools {
        Some(t) => t,
        None => {
            return Err(AppError::SetupConfigMissing);
        },
    };
    let list = match parsed {
        Ok(l) => l,
        Err(msg) => {
            return Err(AppError::ParseError { what: owned("tools.yml"), details: msg });
        },
    };
    if list.len() == 0 {
        return Err(
            AppError::Validation(owned("No tools specified in tools.yml. Add tools to the 'tools' list.")),
        );
    }
    Ok(list)
}


// ---- setup init ----

/// The `tools.yml` that `setup init` writes.
pub open spec fn tools_yml_template() -> Seq<char> {
    "# jlo setup configuration\n# List the tools you want to install\n\ntools:\n  # - just\n  # - swift\n  # - uv\n"@
}

/// The `.gitignore` that `setup init` writes.
pub open spec fn setup_gitignore() -> Seq<char> {
    "# Ignore environment configuration with secrets\nenv.toml\n"@
}

/// Execute `setup init` for the repository at `root`: the files to create
/// under `.jules/setup/`, with their content, unless that directory exists
/// (`setup_exists`).
pub fn setup_init(root: &str, setup_exists: bool) -> (r: Result<Vec<(String, String)>, AppError>)
    ensures
        setup_exists ==> (r matches Err(e) && e is ConfigError),
        !setup_exists ==> (r matches Ok(files) && files@.len() == 2 && files@[0].0@ == root@
            + "/.jules/setup/tools.yml"@ && files@[0].1@ == tools_yml_template() && files@[1].0@
            == root@ + "/.jules/setup/.gitignore"@ && files@[1].1@ == setup_gitignore()),
{
    if setup_exists {
        let setup_dir = crate::text::concat(root, "/.jules/setup");
        return Err(
            AppError::ConfigError(crate::text::concat("Setup already initialized: ", setup_dir.as_str())),
        );
    }
    let tools = crate::text::concat(root, "/.jules/setup/tools.yml");
    let gitignore = crate::text::concat(root, "/.jules/setup/.gitignore");
    let files = vec![
        (
            tools,
            owned(
                "# jlo setup configuration\n# List the tools you want to install\n\ntools:\n  # - just\n  # - swift\n  # - uv\n",
            ),
        ),
        (gitignore, owned("# Ignore environment configuration with secrets\nenv.toml\n")),
    ];
    Ok(files)
}

} // verus!
