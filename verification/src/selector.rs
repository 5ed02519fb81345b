//! From the user's choices to what the shell is started with.
//!
//! A run shows up to two menus, one of the profiles of the configuration
//! file and one of the regions, and exports what was chosen as environment
//! variables of the shell that it then starts.

use crate::cmdline::Opt;
use crate::string_map::StringMap;
use crate::text::starts_with;
use vstd::prelude::*;
use vstd::string::StringExecFns;

verus! {

/// The environment variable that holds the chosen profile.
pub const AWS_DEFAULT_PROFILE: &'static str = "AWS_PROFILE";

/// The environment variable that holds the chosen region.
pub const AWS_DEFAULT_REGION: &'static str = "AWS_DEFAULT_REGION";

/// How a menu's prompt begins, before the name of what is chosen.
pub const PROMPT_OPENING: &'static str = " (current: ";

/// How a menu's prompt ends.
pub const PROMPT_CLOSING: &'static str = " )";

/// What the profile menu chooses.
pub const PROFILE_SUBJECT: &'static str = "profile";

/// What the region menu chooses.
pub const REGION_SUBJECT: &'static str = "region";

/// The regions, as they are exported.
pub open spec fn region_names() -> Seq<Seq<char>> {
    seq![
        "us-east-2"@,
        "us-east-1"@,
        "us-west-1"@,
        "us-west-2"@,
        "ap-south-1"@,
        "ap-northeast-3"@,
        "ap-northeast-2"@,
        "ap-northeast-1"@,
        "ap-southeast-1"@,
        "ap-southeast-2"@,
        "ca-central-1"@,
        "cn-north-1"@,
        "cn-nortwest-1"@,
        "eu-central-1"@,
        "eu-west-1"@,
        "eu-west-2"@,
        "eu-west-3"@,
        "eu-north-1"@,
        "sa-east-1"@,
    ]
}

/// The regions, as the menu shows them, in the order of [`region_names`].
pub open spec fn region_labels() -> Seq<Seq<char>> {
    seq![
        "us-east-2      | Ohio"@,
        "us-east-1      | N. Virginia"@,
        "us-west-1      | N. California"@,
        "us-west-2      | Oregon"@,
        "ap-south-1     | Mumbai"@,
        "ap-northeast-3 | Osaka-Local"@,
        "ap-northeast-2 | Seoul"@,
        "ap-northeast-1 | Tokyo"@,
        "ap-southeast-1 | Singapore"@,
        "ap-southeast-2 | Sydney"@,
        "ca-central-1   | Central"@,
        "cn-north-1     | Beijing"@,
        "cn-nortwest-1  | Ningxia"@,
        "eu-central-1   | Frankfurt"@,
        "eu-west-1      | Ireland"@,
        "eu-west-2      | London"@,
        "eu-west-3      | Paris"@,
        "eu-north-1     | Stockholm"@,
        "sa-east-1      | São Paulo"@,
    ]
}

/// Whether `label` begins with `name` and goes on after it.
pub open spec fn names_its_region(label: Seq<char>, name: Seq<char>) -> bool {
    label.len() > name.len() && starts_with(label, name)
}

/// Each label begins with the name of its region and goes on after it: the
/// menu shows more than what is exported.
pub proof fn lemma_labels_begin_with_names()
    ensures
        region_names().len() == region_labels().len(),
        forall|i: int|
            0 <= i < region_names().len() ==> names_its_region(
                #[trigger] region_labels()[i],
                region_names()[i],
            ),
{
    assert(names_its_region("us-east-2      | Ohio"@, "us-east-2"@)) by {
        reveal_strlit("us-east-2      | Ohio");
        reveal_strlit("us-east-2");
        assert("us-east-2      | Ohio"@.take("us-east-2"@.len() as int) =~= "us-east-2"@);
    }
    assert(names_its_region("us-east-1      | N. Virginia"@, "us-east-1"@)) by {
        reveal_strlit("us-east-1      | N. Virginia");
        reveal_strlit("us-east-1");
        assert("us-east-1      | N. Virginia"@.take("us-east-1"@.len() as int) =~= "us-east-1"@);
    }
    assert(names_its_region("us-west-1      | N. California"@, "us-west-1"@)) by {
        reveal_strlit("us-west-1      | N. California");
        reveal_strlit("us-west-1");
        assert("us-west-1      | N. California"@.take("us-west-1"@.len() as int) =~= "us-west-1"@);
    }
    assert(names_its_region("us-west-2      | Oregon"@, "us-west-2"@)) by {
        reveal_strlit("us-west-2      | Oregon");
        reveal_strlit("us-west-2");
        assert("us-west-2      | Oregon"@.take("us-west-2"@.len() as int) =~= "us-west-2"@);
    }
    assert(names_its_region("ap-south-1     | Mumbai"@, "ap-south-1"@)) by {
        reveal_strlit("ap-south-1     | Mumbai");
        reveal_strlit("ap-south-1");
        assert("ap-south-1     | Mumbai"@.take("ap-south-1"@.len() as int) =~= "ap-south-1"@);
    }
    assert(names_its_region("ap-northeast-3 | Osaka-Local"@, "ap-northeast-3"@)) by {
        reveal_strlit("ap-northeast-3 | Osaka-Local");
        reveal_strlit("ap-northeast-3");
        assert("ap-northeast-3 | Osaka-Local"@.take("ap-northeast-3"@.len() as int) =~= "ap-northeast-3"@);
    }
    assert(names_its_region("ap-northeast-2 | Seoul"@, "ap-northeast-2"@)) by {
        reveal_strlit("ap-northeast-2 | Seoul");
        reveal_strlit("ap-northeast-2");
        assert("ap-northeast-2 | Seoul"@.take("ap-northeast-2"@.len() as int) =~= "ap-northeast-2"@);
    }
    assert(names_its_region("ap-northeast-1 | Tokyo"@, "ap-northeast-1"@)) by {
        reveal_strlit("ap-northeast-1 | Tokyo");
        reveal_strlit("ap-northeast-1");
        assert("ap-northeast-1 | Tokyo"@.take("ap-northeast-1"@.len() as int) =~= "ap-northeast-1"@);
    }
    assert(names_its_region("ap-southeast-1 | Singapore"@, "ap-southeast-1"@)) by {
        reveal_strlit("ap-southeast-1 | Singapore");
        reveal_strlit("ap-southeast-1");
        assert("ap-southeast-1 | Singapore"@.take("ap-southeast-1"@.len() as int) =~= "ap-southeast-1"@);
    }
    assert(names_its_region("ap-southeast-2 | Sydney"@, "ap-southeast-2"@)) by {
        reveal_strlit("ap-southeast-2 | Sydney");
        reveal_strlit("ap-southeast-2");
        assert("ap-southeast-2 | Sydney"@.take("ap-southeast-2"@.len() as int) =~= "ap-southeast-2"@);
    }
    assert(names_its_region("ca-central-1   | Central"@, "ca-central-1"@)) by {
        reveal_strlit("ca-central-1   | Central");
        reveal_strlit("ca-central-1");
        assert("ca-central-1   | Central"@.take("ca-central-1"@.len() as int) =~= "ca-central-1"@);
    }
    assert(names_its_region("cn-north-1     | Beijing"@, "cn-north-1"@)) by {
        reveal_strlit("cn-north-1     | Beijing");
        reveal_strlit("cn-north-1");
        assert("cn-north-1     | Beijing"@.take("cn-north-1"@.len() as int) =~= "cn-north-1"@);
    }
    assert(names_its_region("cn-nortwest-1  | Ningxia"@, "cn-nortwest-1"@)) by {
        reveal_strlit("cn-nortwest-1  | Ningxia");
        reveal_strlit("cn-nortwest-1");
        assert("cn-nortwest-1  | Ningxia"@.take("cn-nortwest-1"@.len() as int) =~= "cn-nortwest-1"@);
    }
    assert(names_its_region("eu-central-1   | Frankfurt"@, "eu-central-1"@)) by {
        reveal_strlit("eu-central-1   | Frankfurt");
        reveal_strlit("eu-central-1");
        assert("eu-central-1   | Frankfurt"@.take("eu-central-1"@.len() as int) =~= "eu-central-1"@);
    }
    assert(names_its_region("eu-west-1      | Ireland"@, "eu-west-1"@)) by {
        reveal_strlit("eu-west-1      | Ireland");
        reveal_strlit("eu-west-1");
        assert("eu-west-1      | Ireland"@.take("eu-west-1"@.len() as int) =~= "eu-west-1"@);
    }
    assert(names_its_region("eu-west-2      | London"@, "eu-west-2"@)) by {
        reveal_strlit("eu-west-2      | London");
        reveal_strlit("eu-west-2");
        assert("eu-west-2      | London"@.take("eu-west-2"@.len() as int) =~= "eu-west-2"@);
    }
    assert(names_its_region("eu-west-3      | Paris"@, "eu-west-3"@)) by {
        reveal_strlit("eu-west-3      | Paris");
        reveal_strlit("eu-west-3");
        assert("eu-west-3      | Paris"@.take("eu-west-3"@.len() as int) =~= "eu-west-3"@);
    }
    assert(names_its_region("eu-north-1     | Stockholm"@, "eu-north-1"@)) by {
        reveal_strlit("eu-north-1     | Stockholm");
        reveal_strlit("eu-north-1");
        assert("eu-north-1     | Stockholm"@.take("eu-north-1"@.len() as int) =~= "eu-north-1"@);
    }
    assert(names_its_region("sa-east-1      | São Paulo"@, "sa-east-1"@)) by {
        reveal_strlit("sa-east-1      | São Paulo");
        reveal_strlit("sa-east-1");
        assert("sa-east-1      | São Paulo"@.take("sa-east-1"@.len() as int) =~= "sa-east-1"@);
    }
}

/// The prompt of a menu that chooses `subject` while `current` is chosen.
pub open spec fn prompt_text(subject: Seq<char>, current: Seq<char>) -> Seq<char> {
    subject + PROMPT_OPENING@ + current + PROMPT_CLOSING@
}

/// One thing that a run does.
#[derive(Clone, Copy, Debug, PartialEq, Eq, Structural)]
pub enum Step {
    /// Print the version, and end the run.
    PrintVersion,
    /// Let the user choose a profile, and export it.
    SelectProfile,
    /// Let the user choose a region, and export it.
    SelectRegion,
    /// Show what is chosen, and start the shell.
    LaunchShell,
}

/// What a run does, in order.
pub open spec fn steps_of(opt: Opt) -> Seq<Step> {
    if opt.version {
        seq![Step::PrintVersion]
    } else if opt.region {
        seq![Step::SelectRegion, Step::LaunchShell]
    } else {
        seq![Step::SelectProfile, Step::SelectRegion, Step::LaunchShell]
    }
}

/// A menu: the prompt above it, and the lines to choose from.
#[derive(Debug)]
pub struct Menu {
    pub prompt: String,
    pub items: Vec<String>,
}

/// An assignment to a variable of the environment.
#[derive(Debug)]
pub struct Export {
    pub variable: String,
    pub value: String,
}

/// The regions, as they are exported.
pub fn regions() -> (list: Vec<&'static str>)
    ensures
        list.deep_view() == region_names(),
{
    let list = vec![
        "us-east-2",
        "us-east-1",
        "us-west-1",
        "us-west-2",
        "ap-south-1",
        "ap-northeast-3",
        "ap-northeast-2",
        "ap-northeast-1",
        "ap-southeast-1",
        "ap-southeast-2",
        "ca-central-1",
        "cn-north-1",
        "cn-nortwest-1",
        "eu-central-1",
        "eu-west-1",
        "eu-west-2",
        "eu-west-3",
        "eu-north-1",
        "sa-east-1",
    ];
    assert(list.deep_view() =~= region_names());
    list
}

/// The regions, as the menu shows them.
pub fn regions_display() -> (list: Vec<&'static str>)
    ensures
        list.deep_view() == region_labels(),
{
    let list = vec![
        "us-east-2      | Ohio",
        "us-east-1      | N. Virginia",
        "us-west-1      | N. California",
        "us-west-2      | Oregon",
        "ap-south-1     | Mumbai",
        "ap-northeast-3 | Osaka-Local",
        "ap-northeast-2 | Seoul",
        "ap-northeast-1 | Tokyo",
        "ap-southeast-1 | Singapore",
        "ap-southeast-2 | Sydney",
        "ca-central-1   | Central",
        "cn-north-1     | Beijing",
        "cn-nortwest-1  | Ningxia",
        "eu-central-1   | Frankfurt",
        "eu-west-1      | Ireland",
        "eu-west-2      | London",
        "eu-west-3      | Paris",
        "eu-north-1     | Stockholm",
        "sa-east-1      | São Paulo",
    ];
    assert(list.deep_view() =~= region_labels());
    list
}

/// What a run does, in order: the version alone where it is asked for; the
/// region menu alone where only the region is to be chosen; otherwise the
/// profile menu, then the region menu. After its menus a run starts the shell.
pub fn run(opt: &Opt) -> (steps: Vec<Step>)
    ensures
        steps@ == steps_of(*opt),
{
    let mut steps: Vec<Step> = Vec::new();
    if opt.version {
        steps.push(Step::PrintVersion);
    } else if opt.region {
        steps.push(Step::SelectRegion);
        steps.push(Step::LaunchShell);
    } else {
        steps.push(Step::SelectProfile);
        steps.push(Step::SelectRegion);
        steps.push(Step::LaunchShell);
    }
    assert(steps@ =~= steps_of(*opt));
    steps
}

/// What an environment variable holds, or the empty string where it is unset.
pub fn default_env(value: Option<String>) -> (text: String)
    ensures
        match value {
            Some(held) => text == held,
            None => text@ == Seq::<char>::empty(),
        },
{
    match value {
        Some(held) => held,
        None => String::new(),
    }
}

/// The prompt of a menu that chooses `subject` while `current` is chosen.
fn prompt_for(subject: &str, current: &str) -> (prompt: String)
    ensures
        prompt@ == prompt_text(subject@, current@),
{
    let mut prompt = String::from_str(subject);
    prompt.append(PROMPT_OPENING);
    prompt.append(current);
    prompt.append(PROMPT_CLOSING);
    prompt
}

/// The keys of `map`, each once.
pub fn to_key_list<V: View>(map: &StringMap<V>) -> (key_list: Vec<&String>)
    ensures
        key_list.deep_view().no_duplicates(),
        key_list.deep_view().to_set() == map@.dom(),
        key_list@.len() == map@.len(),
{
    map.keys()
}

/// The menu of the profiles of a configuration file: each profile once,
/// below a prompt that names the profile chosen so far.
pub fn profile_menu<V: View>(config_file: &StringMap<V>, current: &str) -> (menu: Menu)
    ensures
        menu.prompt@ == prompt_text(PROFILE_SUBJECT@, current@),
        menu.items.deep_view().no_duplicates(),
        menu.items.deep_view().to_set() == config_file@.dom(),
        menu.items@.len() == config_file@.len(),
{
    let profile_list = to_key_list(config_file);
    let mut items: Vec<String> = Vec::new();
    let mut i: usize = 0;
    while i < profile_list.len()
        invariant
            i <= profile_list@.len(),
            items@.len() == i,
            forall|j: int| 0 <= j < i ==> (#[trigger] items@[j])@ == profile_list@[j]@,
        decreases profile_list.len() - i,
    {
        items.push(profile_list[i].clone());
        i += 1;
    }
    assert(items.deep_view() =~= profile_list.deep_view());
    Menu { prompt: prompt_for(PROFILE_SUBJECT, current), items }
}

/// The menu of the regions: their labels, below a prompt that names the
/// region chosen so far.
pub fn region_menu(current: &str) -> (menu: Menu)
    ensures
        menu.prompt@ == prompt_text(REGION_SUBJECT@, current@),
        menu.items.deep_view() == region_labels(),
{
    let labels = regions_display();
    let mut items: Vec<String> = Vec::new();
    let mut i: usize = 0;
    while i < labels.len()
        invariant
            i <= labels@.len(),
            items@.len() == i,
            forall|j: int| 0 <= j < i ==> (#[trigger] items@[j])@ == labels@[j]@,
        decreases labels.len() - i,
    {
        items.push(labels[i].to_owned());
        i += 1;
    }
    assert(items.deep_view() =~= labels.deep_view());
    Menu { prompt: prompt_for(REGION_SUBJECT, current), items }
}

/// The region that the line `selection` of the region menu stands for.
pub fn region_at(selection: usize) -> (region: Option<&'static str>)
    ensures
        match region {
            Some(name) => selection < region_names().len() && name@ == region_names()[
                selection as int
            ],
            None => selection >= region_names().len(),
        },
{
    let list = regions();
    assert(list.deep_view().len() == list@.len());
    if selection < list.len() {
        assert(list.deep_view()[selection as int] == list@[selection as int]@);
        Some(list[selection])
    } else {
        None
    }
}

/// The export that makes `profile` the chosen profile.
pub fn select_profile(profile: &str) -> (export: Export)
    ensures
        export.variable@ == AWS_DEFAULT_PROFILE@,
        export.value@ == profile@,
{
    Export { variable: AWS_DEFAULT_PROFILE.to_owned(), value: profile.to_owned() }
}

/// The export that makes `region` the chosen region.
pub fn select_region(region: &str) -> (export: Export)
    ensures
        export.variable@ == AWS_DEFAULT_REGION@,
        export.value@ == region@,
{
    Export { variable: AWS_DEFAULT_REGION.to_owned(), value: region.to_owned() }
}

} // verus!
