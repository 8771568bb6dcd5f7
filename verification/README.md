# ghcc

Generates conventional commit messages with GitHub Copilot, from the command line or from a
git hook.

```sh
ghcc login           # authenticate with GitHub
git add -p
ghcc                 # one line; -d for a body, -a to let the model decide
ghcc models          # choose a model
ghcc hook install    # fill in the message on `git commit`
```

Patterns in a `.ghccignore` file in the root of a repository keep files out of the diff that
the model sees.

## Layout

`src/` is the library: what the program decides and computes. Its functions have contracts
that Verus proves, but for those of `outside`, which stand for calls into the system and into
other crates:

| module      | what it is about                                                        |
|-------------|-------------------------------------------------------------------------|
| `cli`       | what the arguments ask for, and the answers that need no work           |
| `commands`  | status, the choice of a model, the steps towards a message              |
| `auth`      | credentials: where they are kept, when they expire, how they are renewed |
| `login`     | GitHub's device flow                                                     |
| `git`       | what is asked of git, and what its answers mean                          |
| `diff_stat` | the summary of a diff                                                    |
| `prompt`    | how much of a diff fits into a prompt, and what the prompt says          |
| `copilot`   | models, requests for a message, and how the answer is read               |
| `message`   | what is left of the model's answer                                       |
| `hook`      | the git hook, and when it may be written and removed                     |
| `http`      | requests as plain values, and what can go wrong with them                |
| `paths`     | names in directories                                                     |
| `text`      | the string operations that the rest is built from                        |
| `outside`   | what is taken from the system and from other crates, and is not proved   |

Proof functions whose names begin with `law_` state what holds across functions, such as that
a hook that the program installed can be removed again, or that Copilot is only asked about
staged changes.

`app/` is the program around the library: files, network, processes and the JSON forms of the
documents. `tests/` runs the library.
