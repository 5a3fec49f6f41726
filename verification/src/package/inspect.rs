//! The description of a package in words, as it is shown to the user.

use crate::name::Name;
use crate::package::{by_priority, ordered_by_priority, referents, InnerPackage, Package, ScriptSet};
use crate::package::priority::InnerPackagePriority;
use vstd::prelude::*;
use vstd::string::*;

verus! {

/// How `{:?}` writes a piece of text: in double quotes, with the characters
/// escaped that Rust escapes in a string literal.
pub uninterp spec fn debug_text(text: Seq<char>) -> Seq<char>;

/// The escape sequence that switches bold type on.
pub open spec fn bold_on() -> Seq<char> {
    seq!['\u{1b}', '[', '1', 'm']
}

/// The escape sequence that switches every style off.
pub open spec fn bold_off() -> Seq<char> {
    seq!['\u{1b}', '[', '0', 'm']
}

/// `text` in bold type where colour is wanted, as it is otherwise.
pub open spec fn bold(text: Seq<char>, colored: bool) -> Seq<char> {
    if colored {
        bold_on() + text + bold_off()
    } else {
        text
    }
}

/// A heading: the title, in bold where colour is wanted, on a line of its own.
pub open spec fn heading(title: Seq<char>, colored: bool) -> Seq<char> {
    bold(title, colored) + "\n"@
}

/// The items of a list, each followed by `, ` but for the last.
pub open spec fn comma_separated(items: Seq<Seq<char>>) -> Seq<char>
    decreases items.len(),
{
    if items.len() == 0 {
        Seq::empty()
    } else if items.len() == 1 {
        items[0]
    } else {
        comma_separated(items.drop_last()) + ", "@ + items.last()
    }
}

/// How `{:?}` writes a list of pieces of text.
pub open spec fn debug_texts(items: Seq<String>) -> Seq<char> {
    "["@ + comma_separated(items.map_values(|item: String| debug_text(item@))) + "]"@
}

/// How `{:?}` writes a name.
pub open spec fn debug_name(name: Name) -> Seq<char> {
    "Name("@ + debug_text(name@) + ")"@
}

/// How `{:?}` writes a list of names.
pub open spec fn debug_names(names: Seq<Name>) -> Seq<char> {
    "["@ + comma_separated(names.map_values(|name: Name| debug_name(name))) + "]"@
}

/// The lines that name the commands a package requires.
pub open spec fn commands_text(commands: Seq<String>) -> Seq<char>
    decreases commands.len(),
{
    if commands.len() == 0 {
        Seq::empty()
    } else {
        commands_text(commands.drop_last()) + "* "@ + commands.last()@ + "\n"@
    }
}

/// The section on required commands; empty where none is required.
pub open spec fn requires_text(commands: Seq<String>, colored: bool) -> Seq<char> {
    if commands.len() == 0 {
        Seq::empty()
    } else {
        heading("Requires commands"@, colored) + commands_text(commands)
    }
}

/// The line for one script; empty where none is set.
pub open spec fn script_text(label: Seq<char>, script: Option<String>) -> Seq<char> {
    match script {
        Some(path) => label + path@ + "\n"@,
        None => Seq::empty(),
    }
}

/// The lines for the scripts of one action.
pub open spec fn scripts_text(scripts: ScriptSet) -> Seq<char> {
    script_text("\tbefore packages, run script: "@, scripts.before) + script_text(
        "\tafter packages, run script: "@,
        scripts.after,
    )
}

/// The section on the scripts of one action; empty where none is set.
pub open spec fn script_set_text(title: Seq<char>, scripts: Option<ScriptSet>, colored: bool) -> Seq<
    char,
> {
    match scripts {
        Some(scripts) => heading(title, colored) + scripts_text(scripts),
        None => Seq::empty(),
    }
}

/// The line on additional arguments; empty where there are none.
pub open spec fn arguments_text(arguments: Seq<String>) -> Seq<char> {
    if arguments.len() == 0 {
        Seq::empty()
    } else {
        "  * additional_arguments: "@ + debug_texts(arguments) + "\n"@
    }
}

/// The line on the priority; empty for the normal one.
pub open spec fn priority_text(priority: InnerPackagePriority) -> Seq<char> {
    if priority == InnerPackagePriority::Normal {
        Seq::empty()
    } else {
        "  * priority: "@ + priority.variant_name() + "\n"@
    }
}

/// The line on the platforms; empty where the inner package is for all.
pub open spec fn platforms_text(platforms: Seq<Name>) -> Seq<char> {
    if platforms.len() == 0 {
        Seq::empty()
    } else {
        "  * only for platforms: "@ + debug_names(platforms) + "\n"@
    }
}

/// The line that names an inner package and its installer.
pub open spec fn title_text(package: InnerPackage) -> Seq<char> {
    "* "@ + package.name@ + " ("@ + package.installer@ + ")\n"@
}

/// The lines for one inner package.
pub open spec fn inner_package_text(package: InnerPackage) -> Seq<char> {
    title_text(package) + arguments_text(package.additional_arguments@) + priority_text(
        package.priority,
    ) + platforms_text(package.platforms@)
}

/// The lines for the inner packages `packages`, in the given order.
pub open spec fn inner_packages_text(packages: Seq<InnerPackage>) -> Seq<char>
    decreases packages.len(),
{
    if packages.len() == 0 {
        Seq::empty()
    } else {
        inner_packages_text(packages.drop_last()) + inner_package_text(packages.last())
    }
}

/// The whole description of `package`: the manifest's path, name and
/// layer, the required commands, the scripts of each action, and the inner
/// packages from the highest priority to the lowest.
pub open spec fn package_text(package: Package, colored: bool) -> Seq<char> {
    heading("File"@, colored) + "\t"@ + package.path@ + "\n"@ + heading("Name"@, colored) + "\t"@
        + package.name@ + ", in layer "@ + package.layer@ + "\n"@ + requires_text(
        package.requires@,
        colored,
    ) + script_set_text("On Install"@, package.on_install, colored) + script_set_text(
        "On Update"@,
        package.on_update,
        colored,
    ) + script_set_text("On Delete"@, package.on_delete, colored) + heading("Packages"@, colored)
        + inner_packages_text(by_priority(package.packages@)) + "\n"@
}

/// Calls ansi_term's `Style::new().bold().paint(text)` and writes the
/// painted text out with `to_string`: the sequence that switches bold on,
/// the text itself, and the sequence that resets the style.
#[verifier::external_body]
fn paint_bold(text: &str) -> (r: String)
    ensures
        r@ == bold_on() + text@ + bold_off(),
{
    ansi_term::Style::new().bold().paint(text).to_string()
}

/// Writes `text` with `{:?}`, as `<str as Debug>::fmt` does; the result is
/// by definition `debug_text` of the text.
#[verifier::external_body]
fn debug_string(text: &str) -> (r: String)
    ensures
        r@ == debug_text(text@),
{
    format!("{:?}", text)
}

fn bold_string(text: &str, colored: bool) -> (r: String)
    ensures
        r@ == bold(text@, colored),
{
    if colored {
        paint_bold(text)
    } else {
        String::from_str(text)
    }
}

fn write_heading(out: &mut String, title: &str, colored: bool)
    ensures
        final(out)@ == old(out)@ + heading(title@, colored),
{
    let ghost start = out@;
    let painted = bold_string(title, colored);
    out.append(painted.as_str());
    out.append("\n");
    assert(out@ =~= start + heading(title@, colored));
}

fn write_debug_texts(out: &mut String, items: &Vec<String>)
    ensures
        final(out)@ == old(out)@ + debug_texts(items@),
{
    let ghost start = out@;
    let ghost all = items@.map_values(|item: String| debug_text(item@));
    out.append("[");
    let mut i: usize = 0;
    assert(out@ =~= start + "["@ + comma_separated(all.take(0)));
    while i < items.len()
        invariant
            i <= items@.len(),
            all == items@.map_values(|item: String| debug_text(item@)),
            out@ == start + "["@ + comma_separated(all.take(i as int)),
        decreases items@.len() - i,
    {
        let ghost held = out@;
        if i > 0 {
            out.append(", ");
        }
        let written = debug_string(items[i].as_str());
        out.append(written.as_str());
        proof {
            assert(all.take(i + 1).drop_last() =~= all.take(i as int));
            assert(all.take(i + 1).last() == written@);
            if i == 0 {
                assert(comma_separated(all.take(0)) =~= Seq::<char>::empty());
                assert(out@ =~= start + "["@ + comma_separated(all.take(1)));
            } else {
                assert(out@ =~= start + "["@ + comma_separated(all.take(i + 1)));
            }
        }
        i = i + 1;
    }
    out.append("]");
    assert(all.take(all.len() as int) =~= all);
    assert(out@ =~= start + debug_texts(items@));
}

fn write_debug_names(out: &mut String, names: &Vec<Name>)
    ensures
        final(out)@ == old(out)@ + debug_names(names@),
{
    let ghost start = out@;
    let ghost all = names@.map_values(|name: Name| debug_name(name));
    out.append("[");
    let mut i: usize = 0;
    assert(out@ =~= start + "["@ + comma_separated(all.take(0)));
    while i < names.len()
        invariant
            i <= names@.len(),
            all == names@.map_values(|name: Name| debug_name(name)),
            out@ == start + "["@ + comma_separated(all.take(i as int)),
        decreases names@.len() - i,
    {
        let ghost held = out@;
        if i > 0 {
            out.append(", ");
        }
        let written = debug_string(names[i].as_str());
        out.append("Name(");
        out.append(written.as_str());
        out.append(")");
        proof {
            assert(all.take(i + 1).drop_last() =~= all.take(i as int));
            assert(all.take(i + 1).last() =~= "Name("@ + written@ + ")"@);
            if i == 0 {
                assert(comma_separated(all.take(0)) =~= Seq::<char>::empty());
                assert(out@ =~= start + "["@ + comma_separated(all.take(1)));
            } else {
                assert(out@ =~= start + "["@ + comma_separated(all.take(i + 1)));
            }
        }
        i = i + 1;
    }
    out.append("]");
    assert(all.take(all.len() as int) =~= all);
    assert(out@ =~= start + debug_names(names@));
}

fn write_requires(out: &mut String, commands: &Vec<String>, colored: bool)
    ensures
        final(out)@ == old(out)@ + requires_text(commands@, colored),
{
    let ghost start = out@;
    if commands.len() == 0 {
        assert(out@ =~= start + requires_text(commands@, colored));
        return ;
    }
    write_heading(out, "Requires commands", colored);
    let ghost base = out@;
    let mut i: usize = 0;
    assert(out@ =~= base + commands_text(commands@.take(0)));
    while i < commands.len()
        invariant
            i <= commands@.len(),
            out@ == base + commands_text(commands@.take(i as int)),
        decreases commands@.len() - i,
    {
        out.append("* ");
        out.append(commands[i].as_str());
        out.append("\n");
        proof {
            assert(commands@.take(i + 1).drop_last() =~= commands@.take(i as int));
            assert(commands@.take(i + 1).last() == commands@[i as int]);
            assert(out@ =~= base + commands_text(commands@.take(i + 1)));
        }
        i = i + 1;
    }
    assert(commands@.take(commands@.len() as int) =~= commands@);
    assert(out@ =~= start + requires_text(commands@, colored));
}

fn write_script(out: &mut String, label: &str, script: &Option<String>)
    ensures
        final(out)@ == old(out)@ + script_text(label@, *script),
{
    let ghost start = out@;
    match script {
        Some(path) => {
            out.append(label);
            out.append(path.as_str());
            out.append("\n");
            assert(out@ =~= start + script_text(label@, *script));
        },
        None => {
            assert(out@ =~= start + script_text(label@, *script));
        },
    }
}

fn write_scripts(out: &mut String, script_set: &ScriptSet)
    ensures
        final(out)@ == old(out)@ + scripts_text(*script_set),
{
    let ghost start = out@;
    write_script(out, "\tbefore packages, run script: ", &script_set.before);
    write_script(out, "\tafter packages, run script: ", &script_set.after);
    assert(out@ =~= start + scripts_text(*script_set));
}

fn write_script_set(out: &mut String, title: &str, scripts: &Option<ScriptSet>, colored: bool)
    ensures
        final(out)@ == old(out)@ + script_set_text(title@, *scripts, colored),
{
    let ghost start = out@;
    match scripts {
        Some(script_set) => {
            write_heading(out, title, colored);
            write_scripts(out, script_set);
            assert(out@ =~= start + script_set_text(title@, *scripts, colored));
        },
        None => {
            assert(out@ =~= start + script_set_text(title@, *scripts, colored));
        },
    }
}

fn write_title(out: &mut String, package: &InnerPackage)
    ensures
        final(out)@ == old(out)@ + title_text(*package),
{
    let ghost start = out@;
    out.append("* ");
    out.append(package.name.as_str());
    out.append(" (");
    out.append(package.installer.as_str());
    out.append(")\n");
    assert(out@ =~= start + title_text(*package));
}

fn write_arguments(out: &mut String, arguments: &Vec<String>)
    ensures
        final(out)@ == old(out)@ + arguments_text(arguments@),
{
    let ghost start = out@;
    if arguments.len() > 0 {
        out.append("  * additional_arguments: ");
        write_debug_texts(out, arguments);
        out.append("\n");
    }
    assert(out@ =~= start + arguments_text(arguments@));
}

fn write_priority(out: &mut String, priority: InnerPackagePriority)
    ensures
        final(out)@ == old(out)@ + priority_text(priority),
{
    let ghost start = out@;
    if priority != InnerPackagePriority::Normal {
        out.append("  * priority: ");
        out.append(priority.debug_name());
        out.append("\n");
    }
    assert(out@ =~= start + priority_text(priority));
}

fn write_platforms(out: &mut String, platforms: &Vec<Name>)
    ensures
        final(out)@ == old(out)@ + platforms_text(platforms@),
{
    let ghost start = out@;
    if platforms.len() > 0 {
        out.append("  * only for platforms: ");
        write_debug_names(out, platforms);
        out.append("\n");
    }
    assert(out@ =~= start + platforms_text(platforms@));
}

fn write_inner_package(out: &mut String, package: &InnerPackage)
    ensures
        final(out)@ == old(out)@ + inner_package_text(*package),
{
    let ghost start = out@;
    write_title(out, package);
    write_arguments(out, &package.additional_arguments);
    write_priority(out, package.priority);
    write_platforms(out, &package.platforms);
    assert(out@ =~= start + inner_package_text(*package));
}

/// Describes `package` in words, with headings in bold where `colored` is set.
pub fn inspect_package(package: &Package, colored: bool) -> (r: String)
    ensures
        r@ == package_text(*package, colored),
{
    let mut out = String::new();
    write_heading(&mut out, "File", colored);
    out.append("\t");
    out.append(package.path.as_str());
    out.append("\n");
    write_heading(&mut out, "Name", colored);
    out.append("\t");
    out.append(package.name.as_str());
    out.append(", in layer ");
    out.append(package.layer.as_str());
    out.append("\n");
    write_requires(&mut out, &package.requires, colored);
    write_script_set(&mut out, "On Install", &package.on_install, colored);
    write_script_set(&mut out, "On Update", &package.on_update, colored);
    write_script_set(&mut out, "On Delete", &package.on_delete, colored);
    write_heading(&mut out, "Packages", colored);
    let ghost base = out@;
    let ordered = ordered_by_priority(&package.packages);
    let ghost all = by_priority(package.packages@);
    let mut i: usize = 0;
    assert(out@ =~= base + inner_packages_text(all.take(0)));
    while i < ordered.len()
        invariant
            i <= ordered@.len(),
            referents(ordered@) == all,
            out@ == base + inner_packages_text(all.take(i as int)),
        decreases ordered@.len() - i,
    {
        write_inner_package(&mut out, ordered[i]);
        proof {
            assert(all.take(i + 1).drop_last() =~= all.take(i as int));
            assert(all.take(i + 1).last() == *ordered@[i as int]);
            assert(out@ =~= base + inner_packages_text(all.take(i + 1)));
        }
        i = i + 1;
    }
    assert(all.take(all.len() as int) =~= all);
    out.append("\n");
    assert(out@ =~= package_text(*package, colored));
    out
}

} // verus!
