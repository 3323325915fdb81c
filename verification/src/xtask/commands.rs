use vstd::prelude::*;
use vstd::string::StringSliceAdditionalSpecFns;

use crate::xtask::image::files::ImageFile;

verus! {

/// The tasks of the build tool.
#[derive(Debug, Clone, Copy, PartialEq, Eq, Structural)]
pub enum XtaskCommand {
    /// Run every test, build the kernel and the test kernel, and build the image.
    Check,
    /// Build the disk image.
    Image,
    /// Build the image and boot it in QEMU.
    RunQemu,
    /// Boot an image whose kernel raises a breakpoint, and look for its report.
    SmokeException,
    /// Boot the image and look for the kernel's start-up line.
    SmokeQemu,
}

/// Why the command line names no task.
#[derive(Debug)]
pub enum CommandError {
    /// No task was named.
    MissingCommand,
    /// The named task does not exist.
    UnknownCommand(String),
}

/// Whether the bytes of `a` are those of `b`.
fn str_equal(a: &str, b: &str) -> (r: bool)
    ensures
        r == (a.spec_bytes() == b.spec_bytes()),
{
    let x = a.as_bytes();
    let y = b.as_bytes();
    if x.len() != y.len() {
        return false;
    }
    let mut i: usize = 0;
    while i < x.len()
        invariant
            i <= x@.len() == y@.len(),
            x@ == a.spec_bytes(),
            y@ == b.spec_bytes(),
            forall|j: int| 0 <= j < i ==> x@[j] == y@[j],
        decreases x@.len() - i,
    {
        if x[i] != y[i] {
            assert(x@[i as int] != y@[i as int]);
            return false;
        }
        i = i + 1;
    }
    assert(x@ =~= y@);
    true
}

/// The task that a command line argument names.
pub open spec fn named_command(arg: Seq<u8>) -> Option<XtaskCommand> {
    if arg == "check".spec_bytes() {
        Some(XtaskCommand::Check)
    } else if arg == "image".spec_bytes() {
        Some(XtaskCommand::Image)
    } else if arg == "run-qemu".spec_bytes() {
        Some(XtaskCommand::RunQemu)
    } else if arg == "smoke-exception".spec_bytes() {
        Some(XtaskCommand::SmokeException)
    } else if arg == "smoke-qemu".spec_bytes() {
        Some(XtaskCommand::SmokeQemu)
    } else {
        None
    }
}

/// The task named by the first command line argument.
pub fn parse_command(arg: Option<&str>) -> (r: Result<XtaskCommand, CommandError>)
    ensures
        arg is None ==> r matches Err(CommandError::MissingCommand),
        arg matches Some(a) ==> match named_command(a.spec_bytes()) {
            Some(c) => r matches Ok(d) && d == c,
            None => r matches Err(CommandError::UnknownCommand(s)) && s@ == a@,
        },
{
    let command = match arg {
        Some(c) => c,
        None => {
            return Err(CommandError::MissingCommand);
        },
    };
    if str_equal(command, "check") {
        Ok(XtaskCommand::Check)
    } else if str_equal(command, "image") {
        Ok(XtaskCommand::Image)
    } else if str_equal(command, "run-qemu") {
        Ok(XtaskCommand::RunQemu)
    } else if str_equal(command, "smoke-exception") {
        Ok(XtaskCommand::SmokeException)
    } else if str_equal(command, "smoke-qemu") {
        Ok(XtaskCommand::SmokeQemu)
    } else {
        Err(CommandError::UnknownCommand(command.to_owned()))
    }
}

/// The name of the Limine host tool: with `.exe` on Windows.
pub fn limine_executable_name(windows: bool) -> (r: &'static str)
    ensures
        windows ==> r@ == "limine.exe"@,
        !windows ==> r@ == "limine"@,
{
    if windows {
        "limine.exe"
    } else {
        "limine"
    }
}

/// `names` joined by commas.
pub open spec fn joined(names: Seq<Seq<char>>) -> Seq<char>
    decreases names.len(),
{
    if names.len() == 0 {
        Seq::empty()
    } else if names.len() == 1 {
        names[0]
    } else {
        joined(names.drop_last()) + seq![','] + names.last()
    }
}

/// The arguments of the `cargo` call that builds the kernel, with the given
/// features where there are any.
pub open spec fn kernel_build_args_spec(features: Seq<Seq<char>>) -> Seq<Seq<char>> {
    seq![
        "build"@,
        "-Zbuild-std=core,compiler_builtins"@,
        "-Zbuild-std-features=compiler-builtins-mem"@,
        "-Zjson-target-spec"@,
        "--target"@,
        "x86_64-unknown-none.json"@,
    ] + if features.len() == 0 {
        Seq::empty()
    } else {
        seq!["--features"@, joined(features)]
    }
}

/// The arguments of the `cargo` call that builds the kernel.
pub fn kernel_build_args(features: &[&str]) -> (r: Vec<String>)
    ensures
        r@.map_values(|s: String| s@) == kernel_build_args_spec(
            features@.map_values(|f: &str| f@),
        ),
{
    let mut args: Vec<String> = Vec::new();
    args.push(String::from_str("build"));
    args.push(String::from_str("-Zbuild-std=core,compiler_builtins"));
    args.push(String::from_str("-Zbuild-std-features=compiler-builtins-mem"));
    args.push(String::from_str("-Zjson-target-spec"));
    args.push(String::from_str("--target"));
    args.push(String::from_str("x86_64-unknown-none.json"));
    let ghost fv = features@.map_values(|f: &str| f@);
    if features.len() != 0 {
        args.push(String::from_str("--features"));
        let mut list = String::from_str(features[0]);
        let mut i: usize = 1;
        assert(fv.take(1).drop_last() =~= Seq::<Seq<char>>::empty());
        while i < features.len()
            invariant
                1 <= i <= features@.len(),
                fv == features@.map_values(|f: &str| f@),
                list@ == joined(fv.take(i as int)),
            decreases features@.len() - i,
        {
            assert(fv.take(i + 1).drop_last() =~= fv.take(i as int));
            list.append(",");
            proof {
                reveal_strlit(",");
            }
            list.append(features[i]);
            i = i + 1;
        }
        assert(fv.take(features@.len() as int) =~= fv);
        args.push(list);
    }
    assert(args@.map_values(|s: String| s@) =~= kernel_build_args_spec(fv));
    args
}

/// The files of the boot image: the Limine BIOS stage and configuration at the
/// root and under `/boot/limine`, and the kernel as `/boot/oxid.elf`.
pub fn image_files(limine_bios_sys: Vec<u8>, config: Vec<u8>, kernel: Vec<u8>) -> (r: Vec<ImageFile>)
    ensures
        r@.len() == 5,
        r@[0].path == "/limine-bios.sys" && r@[0].data@ == limine_bios_sys@,
        r@[1].path == "/limine.conf" && r@[1].data@ == config@,
        r@[2].path == "/boot/limine/limine-bios.sys" && r@[2].data@ == limine_bios_sys@,
        r@[3].path == "/boot/limine/limine.conf" && r@[3].data@ == config@,
        r@[4].path == "/boot/oxid.elf" && r@[4].data@ == kernel@,
{
    let mut files: Vec<ImageFile> = Vec::new();
    files.push(ImageFile::new("/limine-bios.sys", limine_bios_sys.clone()));
    files.push(ImageFile::new("/limine.conf", config.clone()));
    files.push(ImageFile::new("/boot/limine/limine-bios.sys", limine_bios_sys));
    files.push(ImageFile::new("/boot/limine/limine.conf", config));
    files.push(ImageFile::new("/boot/oxid.elf", kernel));
    files
}

} // verus!
