//! What the commands of this crate do to the files of a remote host with a POSIX
//! shell, where nothing fails for want of space or of rights.

use vstd::prelude::*;

use crate::channel::all_stdout;
use crate::channel::heard;
use crate::channel::last_status;
use crate::channel::record_sums_up_the_messages;
use crate::channel::CommandFault;
use crate::channel::Message;
use crate::command::CommandAction;
use crate::digest::fingerprint;
use crate::path::directories;
use crate::path::parent_of;
use crate::path::parent_stands_before_the_last_slash;
use crate::path::pieces;
use crate::path::pieces_rejoin;
use crate::path::temporary_is_not_the_destination;
use crate::path::temporary_lies_beside_destination;
use crate::path::temporary_of;
use crate::remote_tree::directories_are_made;
use crate::remote_tree::with_directories;
use crate::remote_tree::Entry;
use crate::remote_tree::LocalFiles;
use crate::remote_tree::Tree;
use crate::sftp_upload::directories_are_not_the_destination;
use crate::sftp_upload::upload_directories;
use crate::shell::move_command_has_these_tokens;
use crate::shell::move_command_text;
use crate::shell::read_command_has_these_tokens;
use crate::shell::read_command_text;
use crate::shell::tokens;
use crate::shell::upload_command_has_these_tokens;
use crate::shell::upload_command_text;
use crate::shell::Token;
use crate::ssh_read::is_read_action;
use crate::ssh_read::is_read_result;
use crate::ssh_read::reading_fingerprints_the_output;
use crate::ssh_read::ReadRun;
use crate::ssh_read::NO_SUCH_FILE;
use crate::ssh_upload::is_ssh_upload_action;
use crate::ssh_upload::messages_are_collected;
use crate::ssh_upload::sent;
use crate::ssh_upload::upload_replaces_the_destination_on_success;
use crate::ssh_upload::SshUploadAction;
use crate::ssh_upload::SshUploadRun;
use crate::sync::SyncRun;

verus! {

/// What a command leaves behind: the tree, its output, and its status.
pub struct Execution {
    pub tree: Tree,
    pub output: Seq<u8>,
    pub status: u32,
}

/// Whether a directory has this name.
pub open spec fn is_directory(tree: Tree, path: Seq<char>) -> bool {
    tree.dom().contains(path) && tree[path] is Directory
}

/// Whether a regular file has this name.
pub open spec fn is_regular(tree: Tree, path: Seq<char>) -> bool {
    tree.dom().contains(path) && tree[path] is File
}

/// Whether `mkdir -p` can make these directories: none of the names is that of a
/// file.
pub open spec fn can_make(tree: Tree, names: Seq<Seq<char>>) -> bool {
    forall|k: int| 0 <= k < names.len() ==> !is_regular(tree, #[trigger] names[k])
}

/// Whether a text can stand in a command: one with a NUL cannot be handed to a shell
/// whole.
pub open spec fn can_be_sent(text: Seq<char>) -> bool {
    !text.contains('\0')
}

/// Whether a utility takes a word for an operand. What starts with `-` it reads as
/// options, and an empty word names nothing.
pub open spec fn is_operand(word: Seq<char>) -> bool {
    can_be_sent(word) && word.len() > 0 && word[0] != '-'
}

/// Whether a path can be the name of a file. One that ends in a `/`, in `.` or in
/// `..` is that of a directory.
pub open spec fn can_name_a_file(path: Seq<char>) -> bool {
    let last = pieces(path).last();
    last.len() > 0 && last != seq!['.'] && last != seq!['.', '.']
}

/// Whether `mv -f from to` may leave `after` behind. A file takes the place of a
/// file, or of nothing; what is not there cannot be moved. Nothing is said of
/// directories on either side, nor of a name that `mv` takes for anything but the
/// name of a file.
pub open spec fn mv(tree: Tree, from: Seq<char>, to: Seq<char>, after: Execution) -> bool {
    is_operand(from) && is_operand(to) && can_name_a_file(from) && can_name_a_file(to) ==> {
        &&& is_regular(tree, from) && !is_directory(tree, to) ==> after == (Execution {
            tree: tree.remove(from).insert(to, tree[from]),
            output: Seq::empty(),
            status: 0,
        })
        &&& !tree.dom().contains(from) ==> after.status != 0 && after.tree == tree
    }
}

/// Whether `cat > to`, with this input, may leave `after` behind, where there is a
/// directory for `to` to lie in. It fails on a directory. A redirection has no
/// options, so that `to` may start with `-`.
pub open spec fn cat_to(tree: Tree, to: Seq<char>, input: Seq<u8>, after: Execution) -> bool {
    can_be_sent(to) && can_name_a_file(to) ==> if is_directory(tree, to) {
        after.status != 0 && after.tree == tree
    } else {
        after == (Execution {
            tree: tree.insert(to, Entry::File(input)),
            output: Seq::empty(),
            status: 0,
        })
    }
}

/// Whether `if [ -f path ]; then cat < path; else exit 66; fi` may leave `after`
/// behind. What follows `-f` is a name, whatever it starts with.
pub open spec fn cat_from(tree: Tree, path: Seq<char>, after: Execution) -> bool {
    can_be_sent(path) ==> if is_regular(tree, path) {
        after == (Execution { tree, output: tree[path]->File_0, status: 0 })
    } else {
        after == (Execution { tree, output: Seq::empty(), status: NO_SUCH_FILE })
    }
}

/// Whether `mkdir -p dir && cat > to`, with this input, may leave `after` behind.
/// Where the directories cannot be made, some of them may have been, but what was
/// there stays, and nothing is stored. Nothing is said of a name that `mkdir` takes
/// for options.
pub open spec fn mkdir_and_cat(
    tree: Tree,
    dir: Seq<char>,
    to: Seq<char>,
    input: Seq<u8>,
    after: Execution,
) -> bool {
    let names = directories(dir);
    is_operand(dir) ==> if can_make(tree, names) {
        cat_to(with_directories(tree, names, names.len() as int), to, input, after)
    } else {
        &&& after.status != 0
        &&& forall|path: Seq<char>| #[trigger]
            tree.dom().contains(path) ==> after.tree.dom().contains(path) && after.tree[path]
                == tree[path]
        &&& forall|path: Seq<char>| #[trigger]
            after.tree.dom().contains(path) ==> tree.dom().contains(path) || (names.contains(path)
                && after.tree[path] is Directory)
    }
}

/// The tokens of a command that stores its input.
pub open spec fn storing(to: Seq<char>) -> Seq<Token> {
    seq![
        Token::Operator('&'),
        Token::Operator('&'),
        Token::Word("cat"@),
        Token::Operator('>'),
        Token::Word(to),
    ]
}

/// The tokens of a command that prints a file.
pub open spec fn printing(path: Seq<char>) -> Seq<Token> {
    seq![
        Token::Word("if"@),
        Token::Word("["@),
        Token::Word("-f"@),
        Token::Word(path),
        Token::Word("]"@),
        Token::Operator(';'),
        Token::Word("then"@),
        Token::Word("cat"@),
        Token::Operator('<'),
        Token::Word(path),
        Token::Operator(';'),
        Token::Word("else"@),
        Token::Word("exit"@),
        Token::Word("66"@),
        Token::Operator(';'),
        Token::Word("fi"@),
    ]
}

/// Whether a command, given this input, may leave `after` behind. Only the commands
/// that this crate sends are described: they move a file within its directory, and
/// store one in the directory just made, or in the one where they are run.
pub open spec fn executes(
    command: Seq<char>,
    tree: Tree,
    input: Seq<u8>,
    after: Execution,
) -> bool {
    match tokens(command) {
        Some(ts) => {
            &&& ts.len() == 4 && ts[2] is Word && ts[3] is Word && ts == seq![
                Token::Word("mv"@),
                Token::Word("-f"@),
                ts[2],
                ts[3],
            ] && parent_of(ts[2]->Word_0) == parent_of(ts[3]->Word_0) ==> mv(tree, ts[2]->Word_0, ts[3]->Word_0, after)
            &&& ts.len() == 6 && ts[5] is Word && ts == seq![Token::Word(":"@)] + storing(
                ts[5]->Word_0,
            ) && parent_of(ts[5]->Word_0) is None ==> cat_to(tree, ts[5]->Word_0, input, after)
            &&& ts.len() == 8 && ts[2] is Word && ts[7] is Word && ts == seq![
                Token::Word("mkdir"@),
                Token::Word("-p"@),
                ts[2],
            ] + storing(ts[7]->Word_0) && parent_of(ts[7]->Word_0) == Some(
                ts[2]->Word_0,
            ) ==> mkdir_and_cat(
                tree,
                ts[2]->Word_0,
                ts[7]->Word_0,
                input,
                after,
            )
            &&& ts.len() == 16 && ts[3] is Word && ts == printing(ts[3]->Word_0) ==> cat_from(
                tree,
                ts[3]->Word_0,
                after,
            )
        },
        None => true,
    }
}

proof fn temporary_can_be_named(dest: Seq<char>)
    requires
        can_be_sent(dest),
    ensures
        can_be_sent(temporary_of(dest)),
        can_name_a_file(temporary_of(dest)),
        is_operand(dest) ==> is_operand(temporary_of(dest)),
{
    reveal_strlit(".tmp");
    let temporary = temporary_of(dest);
    let n = dest.len() as int;
    assert forall|i: int| 0 <= i < temporary.len() implies temporary[i] != '\0' by {
        if i < n {
            assert(temporary[i] == dest[i]);
            assert(dest.contains(dest[i]));
        }
    }
    if dest.len() > 0 {
        assert(temporary[0] == dest[0]);
    }
    assert(temporary.take(n + 4) == temporary);
    assert(temporary.take(n + 4).drop_last() == temporary.take(n + 3));
    assert(temporary.take(n + 3).drop_last() == temporary.take(n + 2));
    assert(temporary.take(n + 2).drop_last() == temporary.take(n + 1));
    assert(temporary.take(n + 1).drop_last() == dest);
    pieces_rejoin(dest);
    assert(pieces(temporary.take(n + 1)).last().len() >= 1);
    assert(pieces(temporary.take(n + 2)).last().len() >= 2);
    assert(pieces(temporary.take(n + 3)).last().len() >= 3);
    assert(pieces(temporary).last().len() >= 4);
    assert(seq!['.'].len() == 1);
    assert(seq!['.', '.'].len() == 2);
}

proof fn parent_is_an_operand(dest: Seq<char>)
    requires
        can_be_sent(dest),
        parent_of(dest) is Some,
        dest[0] != '-',
    ensures
        is_operand(parent_of(dest)->0),
{
    reveal_strlit("/");
    parent_stands_before_the_last_slash(dest);
    let parent = parent_of(dest)->0;
    if parent != "/"@ {
        assert(parent[0] == dest[0]);
        assert forall|i: int| 0 <= i < parent.len() implies parent[i] != '\0' by {
            assert(parent[i] == dest[i]);
            assert(dest.contains(dest[i]));
        }
    }
}

proof fn move_command_moves(dest: Seq<char>, tree: Tree, input: Seq<u8>, after: Execution)
    ensures
        executes(move_command_text(dest), tree, input, after) <==> mv(
            tree,
            temporary_of(dest),
            dest,
            after,
        ),
{
    move_command_has_these_tokens(dest);
    temporary_lies_beside_destination(dest);
}

/// What the upload command leaves behind, by the directories that it needs.
proof fn upload_command_stores(dest: Seq<char>, tree: Tree, input: Seq<u8>, after: Execution)
    requires
        can_be_sent(dest),
        parent_of(dest) is Some ==> dest[0] != '-',
        executes(upload_command_text(dest), tree, input, after),
    ensures
        can_make(tree, upload_directories(dest)) ==> cat_to(
            with_directories(
                tree,
                upload_directories(dest),
                upload_directories(dest).len() as int,
            ),
            temporary_of(dest),
            input,
            after,
        ),
        !can_make(tree, upload_directories(dest)) ==> mkdir_and_cat(
            tree,
            parent_of(dest)->0,
            temporary_of(dest),
            input,
            after,
        ) && parent_of(dest) is Some,
{
    upload_command_has_these_tokens(dest);
    temporary_lies_beside_destination(dest);
    let ts = tokens(upload_command_text(dest))->0;
    let to = temporary_of(dest);
    match parent_of(dest) {
        Some(parent) => {
            let first = seq![Token::Word("mkdir"@), Token::Word("-p"@), Token::Word(parent)];
            parent_is_an_operand(dest);
            assert(ts == first + storing(to));
            assert(ts[2] == Token::Word(parent));
            assert(ts[7] == Token::Word(to));
        },
        None => {
            let first = seq![Token::Word(":"@)];
            assert(ts == first + storing(to));
            assert(ts[5] == Token::Word(to));
        },
    }
}

/// The command that reads a file prints its content and leaves with 0 if there is
/// a regular file of that name, and otherwise leaves with 66; nothing is changed.
pub proof fn read_command_prints_the_file(
    path: Seq<char>,
    tree: Tree,
    input: Seq<u8>,
    after: Execution,
)
    requires
        can_be_sent(path),
        executes(read_command_text(path), tree, input, after),
    ensures
        after.tree == tree,
        after.status == if is_regular(tree, path) {
            0
        } else {
            NO_SUCH_FILE
        },
        after.output == if is_regular(tree, path) {
            tree[path]->File_0
        } else {
            Seq::empty()
        },
{
    read_command_has_these_tokens(path);
    assert(tokens(read_command_text(path))->0 == printing(path));
}

/// The command that receives a file changes nothing at the destination, whether it
/// succeeds or not. The directory of the destination must not be taken for options.
pub proof fn upload_command_leaves_the_destination_alone(
    dest: Seq<char>,
    tree: Tree,
    content: Seq<u8>,
    after: Execution,
)
    requires
        can_be_sent(dest),
        parent_of(dest) is Some ==> dest[0] != '-',
        executes(upload_command_text(dest), tree, content, after),
    ensures
        after.tree.dom().contains(dest) <==> tree.dom().contains(dest),
        tree.dom().contains(dest) ==> after.tree[dest] == tree[dest],
{
    upload_command_stores(dest, tree, content, after);
    temporary_can_be_named(dest);
    if parent_of(dest) is Some {
        parent_is_an_operand(dest);
    }
    temporary_is_not_the_destination(dest);
    let names = upload_directories(dest);
    directories_are_made(tree, names, names.len() as int);
    if names.contains(dest) {
        let k = choose|k: int| 0 <= k < names.len() && names[k] == dest;
        directories_are_not_the_destination(dest, k);
    }
}

/// If the directory of the destination cannot be made, the command that receives a
/// file fails, and no file is created or changed.
pub proof fn upload_command_stores_nothing_without_the_directory(
    dest: Seq<char>,
    tree: Tree,
    content: Seq<u8>,
    after: Execution,
)
    requires
        can_be_sent(dest),
        parent_of(dest) is Some ==> dest[0] != '-',
        executes(upload_command_text(dest), tree, content, after),
        !can_make(tree, upload_directories(dest)),
    ensures
        after.status != 0,
        forall|path: Seq<char>| #[trigger]
            is_regular(after.tree, path) <==> is_regular(tree, path),
        forall|path: Seq<char>| #[trigger]
            is_regular(tree, path) ==> after.tree[path] == tree[path],
{
    upload_command_stores(dest, tree, content, after);
    if parent_of(dest) is Some {
        parent_is_an_operand(dest);
    }
}

proof fn names_keep_their_kind(dest: Seq<char>, tree: Tree, path: Seq<char>)
    requires
        path == dest || path == temporary_of(dest),
        !is_directory(tree, path),
    ensures
        !is_directory(
            with_directories(
                tree,
                upload_directories(dest),
                upload_directories(dest).len() as int,
            ),
            path,
        ),
{
    let names = upload_directories(dest);
    directories_are_made(tree, names, names.len() as int);
    if names.contains(path) {
        let k = choose|k: int| 0 <= k < names.len() && names[k] == path;
        directories_are_not_the_destination(dest, k);
    }
}

/// The two commands of an upload, where no file stands in the way of a directory
/// and no directory in the way of a file, both succeed, and then the content is at
/// the destination and the temporary file is gone. The directories of the
/// destination have been made where they were missing; nothing else has changed.
/// The destination must be one that `mv` takes for the name of a file.
pub proof fn upload_commands_put_the_content_in_place(
    dest: Seq<char>,
    tree: Tree,
    content: Seq<u8>,
    stored: Execution,
    moved: Execution,
)
    requires
        is_operand(dest),
        can_name_a_file(dest),
        can_make(tree, upload_directories(dest)),
        !is_directory(tree, dest),
        !is_directory(tree, temporary_of(dest)),
        executes(upload_command_text(dest), tree, content, stored),
        executes(move_command_text(dest), stored.tree, Seq::empty(), moved),
    ensures
        stored.status == 0,
        moved.status == 0,
        moved.tree == with_directories(
            tree,
            upload_directories(dest),
            upload_directories(dest).len() as int,
        ).remove(temporary_of(dest)).insert(dest, Entry::File(content)),
{
    let temporary = temporary_of(dest);
    let made = with_directories(
        tree,
        upload_directories(dest),
        upload_directories(dest).len() as int,
    );
    upload_command_stores(dest, tree, content, stored);
    temporary_can_be_named(dest);
    move_command_moves(dest, stored.tree, Seq::empty(), moved);
    temporary_is_not_the_destination(dest);
    names_keep_their_kind(dest, tree, dest);
    names_keep_their_kind(dest, tree, temporary);
    assert(made.insert(temporary, Entry::File(content)).remove(temporary).insert(
        dest,
        Entry::File(content),
    ) =~= made.remove(temporary).insert(dest, Entry::File(content)));
}

/// Once a file has been uploaded over SSH, reading it back gives the fingerprint
/// of what was sent, however the output is cut into messages, and checking it
/// again finds nothing to do.
pub proof fn uploaded_file_is_up_to_date_over_ssh(
    src: Seq<char>,
    dest: Seq<char>,
    tree: Tree,
    content: Seq<u8>,
    stored: Execution,
    moved: Execution,
    read: Execution,
    messages: Seq<Message>,
    result: Result<Option<String>, CommandFault>,
)
    requires
        is_operand(dest),
        can_name_a_file(dest),
        can_make(tree, upload_directories(dest)),
        !is_directory(tree, dest),
        !is_directory(tree, temporary_of(dest)),
        executes(upload_command_text(dest), tree, content, stored),
        executes(move_command_text(dest), stored.tree, Seq::empty(), moved),
        executes(read_command_text(dest), moved.tree, Seq::empty(), read),
        exists|i: int| 0 <= i < messages.len() && #[trigger] messages[i].ends(),
        all_stdout(heard(messages)) == read.output,
        last_status(heard(messages)) == Some(read.status),
        is_read_result(result, ReadRun::fresh(dest).advance().advance().record_all(messages)),
    ensures
        result matches Ok(Some(text)) && text@ == fingerprint(content),
        SyncRun::fresh(src, dest).local_known(fingerprint(content)).remote_known(
            match result {
                Ok(Some(text)) => Some(text@),
                _ => None,
            },
        ).stage is Complete,
{
    upload_commands_put_the_content_in_place(dest, tree, content, stored, moved);
    read_command_prints_the_file(dest, moved.tree, Seq::empty(), read);
    reading_fingerprints_the_output(dest, messages, result);
}

/// A reading of `path` fingerprints the remote file of that name: where the command that
/// it asks for is executed, and its output and status are reported, the result is the
/// fingerprint of the file's content, or that there is no such file.
pub proof fn reading_fingerprints_the_file_of_that_name(
    path: Seq<char>,
    tree: Tree,
    sending: CommandAction,
    read: Execution,
    messages: Seq<Message>,
    result: Result<Option<String>, CommandFault>,
)
    requires
        can_be_sent(path),
        is_read_action(sending, ReadRun::fresh(path).advance()),
        sending matches CommandAction::Execute { command, .. } ==> executes(
            command@,
            tree,
            Seq::empty(),
            read,
        ),
        exists|i: int| 0 <= i < messages.len() && #[trigger] messages[i].ends(),
        all_stdout(heard(messages)) == read.output,
        last_status(heard(messages)) == Some(read.status),
        is_read_result(result, ReadRun::fresh(path).advance().advance().record_all(messages)),
    ensures
        if tree.dom().contains(path) && tree[path] is File {
            result matches Ok(Some(text)) && text@ == fingerprint(tree[path]->File_0)
        } else {
            result matches Ok(None)
        },
        read.tree == tree,
{
    read_command_prints_the_file(path, tree, Seq::empty(), read);
    reading_fingerprints_the_output(path, messages, result);
}

/// An upload from `src` to `dest` puts the content of the local file `src` at `dest`: the
/// command that it sends is executed with the local file that it opens as its input, the
/// status is reported, and the command that it then asks for is executed. Where no file
/// stands in the way of a directory and no directory in the way of a file, both succeed;
/// then the upload is complete, `dest` has the content of `src`, and the temporary file
/// is gone. The directories of the destination have been made where they were missing;
/// nothing else has changed.
pub proof fn upload_carries_the_source_over_ssh(
    src: Seq<char>,
    dest: Seq<char>,
    files: LocalFiles,
    tree: Tree,
    sending: SshUploadAction,
    source: SshUploadAction,
    stored: Execution,
    messages: Seq<Message>,
    replacing: SshUploadAction,
    moved: Execution,
    done: SshUploadAction,
)
    requires
        files.dom().contains(src),
        is_operand(dest),
        can_name_a_file(dest),
        can_make(tree, upload_directories(dest)),
        !is_directory(tree, dest),
        !is_directory(tree, temporary_of(dest)),
        is_ssh_upload_action(sending, SshUploadRun::fresh(src, dest).advance()),
        is_ssh_upload_action(source, SshUploadRun::fresh(src, dest).advance().advance()),
        sending matches SshUploadAction::Execute { command, .. } ==> (
        source matches SshUploadAction::OpenSource(path) ==> executes(
            command@,
            tree,
            files[path@],
            stored,
        )),
        exists|i: int| 0 <= i < messages.len() && #[trigger] messages[i].ends(),
        last_status(heard(messages)) == Some(stored.status),
        is_ssh_upload_action(replacing, sent(src, dest).record_all(messages).settle()),
        replacing matches SshUploadAction::Run(command) ==> executes(
            command@,
            stored.tree,
            Seq::empty(),
            moved,
        ),
        is_ssh_upload_action(done, sent(src, dest).record_all(messages).settle().advance()),
    ensures
        sending is Execute,
        source matches SshUploadAction::OpenSource(path) && path@ == src,
        stored.status == 0,
        replacing is Run,
        moved.status == 0,
        done is Complete,
        moved.tree == with_directories(
            tree,
            upload_directories(dest),
            upload_directories(dest).len() as int,
        ).remove(temporary_of(dest)).insert(dest, Entry::File(files[src])),
{
    upload_command_stores(dest, tree, files[src], stored);
    temporary_can_be_named(dest);
    names_keep_their_kind(dest, tree, temporary_of(dest));
    let ending = choose|i: int| 0 <= i < messages.len() && #[trigger] messages[i].ends();
    assert(messages[ending] == Message::Close || messages[ending] == Message::End);
    settle_is_awaited(src, dest, messages);
    upload_replaces_the_destination_on_success(
        src,
        dest,
        messages,
        SshUploadAction::Settle,
        replacing,
        done,
    );
    move_command_has_these_tokens(dest);
    upload_commands_put_the_content_in_place(dest, tree, files[src], stored, moved);
}

proof fn settle_is_awaited(src: Seq<char>, dest: Seq<char>, messages: Seq<Message>)
    requires
        exists|i: int| 0 <= i < messages.len() && #[trigger] messages[i].ends(),
    ensures
        is_ssh_upload_action(SshUploadAction::Settle, sent(src, dest).record_all(messages)),
{
    messages_are_collected(src, dest, messages);
    record_sums_up_the_messages(messages);
}

} // verus!
