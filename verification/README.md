# dsh-desktop

The desktop shell of DeepSeek Harness: it runs the local kernel (`dsh web`), shows its pages in a
native window, and offers a sidebar with files, search and git.

- `src/` is a Verus library. It holds the rules of the shell, with their contracts:
  - `supervisor`, `watchdog`: when the kernel is started, restarted, stopped and given up;
  - `server`, `version`: where the runtime lies, which version of it is used, when it is ready, and
    where the window may go;
  - `update`, `config`: what the updater reports, when the user is asked, and what is skipped;
  - `files`, `content`, `walk`, `search`, `sort`: what the sidebar may touch, shows and finds;
  - `git`: which commands are run and what their output says;
  - `bridge`, `viewer`, `menu`: the session bridge, the file viewer, the menu and the diagnostics;
  - `text`, `number`, `bytes`, `json`: the texts that all of these are made of;
  - `outside`: what is believed of the code outside, item by item.
- `tests/` runs the library.
- `app/` is the Tauri application around it: processes, files, sockets and windows.
